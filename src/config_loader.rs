//! Reading link properties from a link's static configuration.
use vstd::prelude::*;

use crate::race_common::LinkType;

verus! {

/// The link type that a configuration names.
pub open spec fn link_type_named(name: Seq<char>) -> LinkType {
    if name == "send"@ {
        LinkType::LtSend
    } else if name == "receive"@ {
        LinkType::LtRecv
    } else if name == "bidirectional"@ {
        LinkType::LtBidi
    } else {
        LinkType::LtUndef
    }
}

/// Reads the fields of a link's static configuration.
pub struct ConfigLoader {}

impl ConfigLoader {
    /// The link type named by a configuration's `type` field: `send`,
    /// `receive` or `bidirectional`; any other name is undefined.
    pub fn parse_link_type(name: &str) -> (r: LinkType)
        ensures
            r == link_type_named(name@),
    {
        let n = String::from_str(name);
        if n.eq(&String::from_str("send")) {
            LinkType::LtSend
        } else if n.eq(&String::from_str("receive")) {
            LinkType::LtRecv
        } else if n.eq(&String::from_str("bidirectional")) {
            LinkType::LtBidi
        } else {
            LinkType::LtUndef
        }
    }

    /// An integer field: its value when present and within `i32`, else the
    /// default.
    pub fn int_or(value: Option<i64>, default: i32) -> (r: i32)
        ensures
            r == match value {
                Some(v) => if i32::MIN <= v <= i32::MAX {
                    v as i32
                } else {
                    default
                },
                None => default,
            },
    {
        match value {
            Some(v) => if i32::MIN as i64 <= v && v <= i32::MAX as i64 {
                v as i32
            } else {
                default
            },
            None => default,
        }
    }

    /// A flag field: its value when present, else the default.
    pub fn bool_or(value: Option<bool>, default: bool) -> (r: bool)
        ensures
            r == match value {
                Some(v) => v,
                None => default,
            },
    {
        match value {
            Some(v) => v,
            None => default,
        }
    }
}

} // verus!
