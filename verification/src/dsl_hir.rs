//! The attributes written above items of the device description macro, and what is
//! read from them.

use vstd::prelude::*;

verus! {

/// The attributes above an item.
#[derive(Debug, Clone, PartialEq, Eq)]
pub struct AttributeList {
    pub attributes: Vec<Attribute>,
}

impl AttributeList {
    /// A list without attributes.
    pub fn new() -> (res: Self)
        ensures
            res.attributes@.len() == 0,
    {
        Self { attributes: Vec::new() }
    }
}

/// An attribute: a line of documentation or a condition.
#[derive(Debug, Clone, PartialEq, Eq)]
pub enum Attribute {
    Doc(String),
    Cfg(String),
}

/// The documentation lines among the attributes, in order.
pub open spec fn doc_lines(attrs: Seq<Attribute>) -> Seq<Seq<char>>
    decreases attrs.len(),
{
    if attrs.len() == 0 {
        Seq::empty()
    } else {
        doc_lines(attrs.drop_last()) + match attrs.last() {
            Attribute::Doc(val) => seq![val@],
            Attribute::Cfg(_) => Seq::empty(),
        }
    }
}

/// The conditions among the attributes, in order.
pub open spec fn cfg_values(attrs: Seq<Attribute>) -> Seq<Seq<char>>
    decreases attrs.len(),
{
    if attrs.len() == 0 {
        Seq::empty()
    } else {
        cfg_values(attrs.drop_last()) + match attrs.last() {
            Attribute::Cfg(val) => seq![val@],
            Attribute::Doc(_) => Seq::empty(),
        }
    }
}

/// The lines joined by line breaks.
pub open spec fn joined_lines(lines: Seq<Seq<char>>) -> Seq<char>
    decreases lines.len(),
{
    if lines.len() == 0 {
        Seq::empty()
    } else if lines.len() == 1 {
        lines[0]
    } else {
        joined_lines(lines.drop_last()) + "\n"@ + lines.last()
    }
}

/// The documentation of an item: its documentation lines joined by line breaks.
pub fn get_description(attrs: &AttributeList) -> (res: String)
    ensures
        res@ == joined_lines(doc_lines(attrs.attributes@)),
{
    let ghost all = attrs.attributes@;
    let mut res = String::new();
    let mut any = false;
    let mut i: usize = 0;
    proof {
        assert(all.take(0) =~= Seq::<Attribute>::empty());
    }
    while i < attrs.attributes.len()
        invariant
            i <= all.len(),
            all == attrs.attributes@,
            res@ == joined_lines(doc_lines(all.take(i as int))),
            any == (doc_lines(all.take(i as int)).len() > 0),
        decreases all.len() - i,
    {
        let ghost before = doc_lines(all.take(i as int));
        proof {
            let next = all.take(i + 1);
            assert(next.drop_last() =~= all.take(i as int));
            assert(next.last() == all[i as int]);
        }
        match &attrs.attributes[i] {
            Attribute::Doc(val) => {
                if any {
                    res.append("\n");
                }
                res.append(val.as_str());
                any = true;
                proof {
                    let lines = doc_lines(all.take(i + 1));
                    assert(lines == before.push(val@));
                    if before.len() == 0 {
                        assert(lines =~= seq![val@]);
                    } else {
                        assert(lines.drop_last() =~= before);
                    }
                }
            },
            Attribute::Cfg(_) => {
                proof {
                    assert(doc_lines(all.take(i + 1)) =~= before);
                }
            },
        }
        i = i + 1;
    }
    proof {
        assert(all.take(all.len() as int) =~= all);
    }
    res
}

/// The conditions of an item, in order.
pub fn get_cfg_attrs(attrs: &AttributeList) -> (res: Vec<String>)
    ensures
        res@.map_values(|s: String| s@) == cfg_values(attrs.attributes@),
{
    let ghost all = attrs.attributes@;
    let mut res: Vec<String> = Vec::new();
    let mut i: usize = 0;
    proof {
        assert(all.take(0) =~= Seq::<Attribute>::empty());
        assert(res@.map_values(|s: String| s@) =~= cfg_values(all.take(0)));
    }
    while i < attrs.attributes.len()
        invariant
            i <= all.len(),
            all == attrs.attributes@,
            res@.map_values(|s: String| s@) == cfg_values(all.take(i as int)),
        decreases all.len() - i,
    {
        let ghost before = res@;
        proof {
            let next = all.take(i + 1);
            assert(next.drop_last() =~= all.take(i as int));
            assert(next.last() == all[i as int]);
        }
        match &attrs.attributes[i] {
            Attribute::Cfg(val) => {
                res.push(val.clone());
                proof {
                    assert(res@.map_values(|s: String| s@) =~= before.map_values(
                        |s: String| s@,
                    ).push(val@));
                }
            },
            Attribute::Doc(_) => {},
        }
        proof {
            assert(res@.map_values(|s: String| s@) =~= cfg_values(all.take(i + 1)));
        }
        i = i + 1;
    }
    proof {
        assert(all.take(all.len() as int) =~= all);
    }
    res
}

} // verus!
