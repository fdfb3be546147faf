//! The way from a device description to the code of its driver: the checks and
//! completions of the description, its layout, the check of the layout, and the code.
//! For the device description macro, the way starts at the written device.

use vstd::prelude::*;

use crate::dsl_device::{device_fault, device_read, transform_dsl_device, HirDevice};
use crate::dsl_transform::fault_error;
use crate::error::{message_text, Error};
use crate::lir::block_generation::read_counts_fit;
use crate::lir::device_generation::device_text;
use crate::lir::passes::addresses_non_overlapping::{
    claims_ok, device_claims, first_conflict_error, pass_ready, run_pass,
};
use crate::lir::transform::{device_ready, transform_v};
use crate::mir::{all_objects, Device, Object};
use crate::passes::{failing_trace, passes_ready_pred, passes_trace, run_passes};
use crate::register_generation::compile_error_text;

verus! {

/// The device can be laid out, its layout checked and its code written: the layout's
/// conditions hold, the address check can take the layout, and the counts of repeated
/// readable registers are numbers of the reading code.
pub open spec fn lowerable(dv: Device) -> bool {
    &&& device_ready(dv)
    &&& pass_ready(transform_v(dv))
    &&& forall|i: int|
        0 <= i < transform_v(dv).blocks.len() ==> read_counts_fit(
            #[trigger] transform_v(dv).blocks[i].methods,
        )
}

/// `dv` is what the passes make of `d` when they all accept it, named after the driver.
pub open spec fn passed(d: Device, dv: Device, driver_name: Seq<char>) -> bool {
    &&& dv.global_config == d.global_config
    &&& dv.name matches Some(n) && n@ == driver_name
    &&& exists|
        d1: Seq<Object>,
        d2: Seq<Object>,
        d3: Seq<Object>,
        d4: Seq<Object>,
        d5: Seq<Object>,
        d6: Seq<Object>,
        d7: Seq<Object>,
        d8: Seq<Object>,
    |
        #[trigger] passes_trace(
            d.objects@,
            d.global_config,
            d.name,
            d1,
            d2,
            d3,
            d4,
            d5,
            d6,
            d7,
            d8,
            dv.objects@,
        )
}

/// Wherever the passes accept the device, what they make of it can be turned into code.
pub open spec fn pipeline_ready(d: Device, driver_name: Seq<char>) -> bool {
    forall|dv: Device| #[trigger] passed(d, dv, driver_name) ==> lowerable(dv)
}

/// One of the passes refuses the device with the error: the first refusal in the order of
/// the first check that refuses.
pub open spec fn passes_refuse(d: Device, e: Error) -> bool {
    exists|d1: Seq<Object>, d2: Seq<Object>, d3: Seq<Object>, d4: Seq<Object>, d5: Seq<Object>, d6: Seq<Object>, d7: Seq<Object>|
        #[trigger] failing_trace(d.objects@, d.global_config, d.name, d1, d2, d3, d4, d5, d6, d7, e)
}

/// What turning the device into the code of the driver gives: the error of the first pass
/// that refuses it; else, for what the passes make of it, the error of the address check
/// on its layout, or the code of its layout.
pub open spec fn mir_result(d: Device, driver_name: Seq<char>, r: Result<String, Error>) -> bool {
    match r {
        Err(e) => passes_refuse(d, e) || exists|dv: Device|
            #![trigger passed(d, dv, driver_name)]
            passed(d, dv, driver_name) && !claims_ok(device_claims(transform_v(dv))) && first_conflict_error(
                e,
                device_claims(transform_v(dv)),
            ),
        Ok(t) => exists|dv: Device, l: crate::lir::Device|
            #![trigger passed(d, dv, driver_name), device_text(l)]
            passed(d, dv, driver_name) && l@ == transform_v(dv) && claims_ok(device_claims(l@)) && t@
                == device_text(l),
    }
}

/// Turns a device description into the code of the driver named `driver_name`: runs
/// the passes on it, lays out what they make of it under the driver's name, checks the
/// addresses of the layout and writes its code. See [`mir_result`].
pub fn transform_mir(device: Device, driver_name: &str) -> (res: Result<String, Error>)
    requires
        all_objects(device.objects@, passes_ready_pred()),
        pipeline_ready(device, driver_name@),
    ensures
        mir_result(device, driver_name@, res),
{
    let ghost d0 = device;
    let mut d = device;
    match run_passes(&mut d) {
        Err(e) => return Err(e),
        Ok(()) => {},
    }
    let ghost after = d.objects@;
    d.name = Some(String::from_str(driver_name));
    proof {
        let (d1, d2, d3, d4, d5, d6, d7, d8) = choose|
            d1: Seq<Object>,
            d2: Seq<Object>,
            d3: Seq<Object>,
            d4: Seq<Object>,
            d5: Seq<Object>,
            d6: Seq<Object>,
            d7: Seq<Object>,
            d8: Seq<Object>,
        |
            #[trigger] passes_trace(
                d0.objects@,
                d0.global_config,
                d0.name,
                d1,
                d2,
                d3,
                d4,
                d5,
                d6,
                d7,
                d8,
                after,
            );
        assert(passes_trace(d0.objects@, d0.global_config, d0.name, d1, d2, d3, d4, d5, d6, d7, d8, d.objects@));
        assert(passed(d0, d, driver_name@));
        assert(lowerable(d));
    }
    let ghost dv = d;
    let l = match crate::lir::transform::transform(d) {
        Ok(l) => l,
        Err(e) => return Err(e),
    };
    match run_pass(&l) {
        Err(e) => {
            proof {
                assert(passed(d0, dv, driver_name@));
            }
            return Err(e);
        },
        Ok(()) => {},
    }
    proof {
        assert forall|i: int| 0 <= i < l.blocks@.len() implies read_counts_fit(
            #[trigger] l.blocks@[i]@.methods,
        ) by {
            assert(l@.blocks[i] == l.blocks@[i]@);
        }
    }
    let text = crate::lir::device_generation::transform(l);
    proof {
        assert(passed(d0, dv, driver_name@));
    }
    Ok(text)
}

/// What the device description macro gives for a written device: the compile error of
/// the first fault of the written device, or of the first refusal on the way to the
/// code; else the code of the driver.
pub open spec fn dsl_result(d: HirDevice, driver_name: Seq<char>, res: Seq<char>) -> bool {
    match device_fault(d) {
        Some((f, name)) => exists|e: Error| fault_error(f, name, e) && res == compile_error_text(message_text(e)),
        None => exists|x: Device, r: Result<String, Error>|
            #![trigger device_read(d, x), mir_result(x, driver_name, r)]
            device_read(d, x) && mir_result(x, driver_name, r) && res == match r {
                Ok(t) => t@,
                Err(e) => compile_error_text(message_text(e)),
            },
    }
}

/// The compile error with the error's message.
fn error_code_of(e: &Error) -> (res: String)
    ensures
        res@ == compile_error_text(message_text(*e)),
{
    let msg = e.message();
    crate::register_generation::error_code(msg.as_str())
}

/// Turns a written device into the code of the driver named `driver_name`, or the
/// compile error of the first fault or refusal: see [`dsl_result`].
pub fn transform_dsl(d: &HirDevice, driver_name: &str) -> (res: String)
    requires
        forall|x: Device|
            #[trigger] device_read(*d, x) ==> all_objects(x.objects@, passes_ready_pred()) && pipeline_ready(
                x,
                driver_name@,
            ),
    ensures
        dsl_result(*d, driver_name@, res@),
{
    match transform_dsl_device(d) {
        Err(e) => error_code_of(&e),
        Ok(x) => {
            proof {
                assert(device_read(*d, x));
            }
            let ghost x0 = x;
            let r = transform_mir(x, driver_name);
            let res = match &r {
                Ok(t) => t.clone(),
                Err(e) => error_code_of(e),
            };
            proof {
                assert(device_read(*d, x0) && mir_result(x0, driver_name@, r));
            }
            res
        },
    }
}

} // verus!
