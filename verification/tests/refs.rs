use device_driver::mir::{
    Block, BlockOverride, CommandOverride, Device, Object, ObjectOverride, RefObject, Register,
    RegisterOverride,
};
use device_driver::passes::refs::run_pass;

#[test]
fn ref_found() {
    let mut start_mir = Device {
        name: None,
        global_config: Default::default(),
        objects: vec![
            Object::Register(Register {
                name: "MyReg".into(),
                ..Default::default()
            }),
            Object::Ref(RefObject {
                cfg_attr: Default::default(),
                description: Default::default(),
                name: "MyRef".into(),
                object_override: ObjectOverride::Register(RegisterOverride {
                    name: "MyReg".into(),
                    ..Default::default()
                }),
            }),
        ],
    };

    run_pass(&mut start_mir).unwrap();
}

#[test]
fn bad_register_ref() {
    let mut start_mir = Device {
        name: None,
        global_config: Default::default(),
        objects: vec![Object::Ref(RefObject {
            cfg_attr: Default::default(),
            description: Default::default(),
            name: "MyRef".into(),
            object_override: ObjectOverride::Register(RegisterOverride {
                name: "MyReg2".into(),
                ..Default::default()
            }),
        })],
    };

    assert_eq!(
        run_pass(&mut start_mir).unwrap_err().message(),
        "Register ref `MyRef` refers to unknown register `MyReg2`"
    );
}

#[test]
fn bad_block_ref() {
    let mut start_mir = Device {
        name: None,
        global_config: Default::default(),
        objects: vec![Object::Ref(RefObject {
            cfg_attr: Default::default(),
            description: Default::default(),
            name: "MyRef".into(),
            object_override: ObjectOverride::Block(BlockOverride {
                name: "MyBlock2".into(),
                ..Default::default()
            }),
        })],
    };

    assert_eq!(
        run_pass(&mut start_mir).unwrap_err().message(),
        "Block ref `MyRef` refers to unknown block `MyBlock2`"
    );
}

#[test]
fn bad_command_ref() {
    let mut start_mir = Device {
        name: None,
        global_config: Default::default(),
        objects: vec![Object::Ref(RefObject {
            cfg_attr: Default::default(),
            description: Default::default(),
            name: "MyRef".into(),
            object_override: ObjectOverride::Command(CommandOverride {
                name: "MyComm2".into(),
                ..Default::default()
            }),
        })],
    };

    assert_eq!(
        run_pass(&mut start_mir).unwrap_err().message(),
        "Command ref `MyRef` refers to unknown command `MyComm2`"
    );
}

#[test]
fn ref_to_nested_block_found() {
    let mut start_mir = Device {
        name: None,
        global_config: Default::default(),
        objects: vec![
            Object::Block(Block {
                name: "Outer".into(),
                objects: vec![Object::Block(Block {
                    name: "Inner".into(),
                    ..Default::default()
                })],
                ..Default::default()
            }),
            Object::Ref(RefObject {
                cfg_attr: Default::default(),
                description: Default::default(),
                name: "MyRef".into(),
                object_override: ObjectOverride::Block(BlockOverride {
                    name: "Inner".into(),
                    ..Default::default()
                }),
            }),
        ],
    };

    run_pass(&mut start_mir).unwrap();
}
