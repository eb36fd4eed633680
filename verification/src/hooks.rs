//! The optional operations of a resolved enum.
//!
//! Besides the operations that every resolved enum has, three are there only
//! when the enum asks for them.  This module decides which; what each one
//! does when called is the host's standard machinery and not modelled here,
//! except that rendering gives the variant's display string.

use vstd::prelude::*;

verus! {

/// An optional operation.
#[derive(Clone, Copy, Debug, PartialEq, Eq, Hash, Structural)]
pub enum Hook {
    /// Rendering a value as text gives its variant's display string.
    Display,
    /// `to_serde`: hands the value to the JSON serializer and returns the
    /// text, or the serializer's error.
    ToSerde,
    /// `from_serde`: hands a JSON value to the deserializer and returns the
    /// value of the enum, or the deserializer's error.
    FromSerde,
}

/// The serialization hooks that the two switches ask for, in the order in
/// which they are put out.
pub open spec fn serde_hooks(has_serialize: bool, has_deserialize: bool) -> Seq<Hook> {
    let to = if has_serialize {
        seq![Hook::ToSerde]
    } else {
        Seq::empty()
    };
    let from = if has_deserialize {
        seq![Hook::FromSerde]
    } else {
        Seq::empty()
    };
    to + from
}

/// The rendering hook that the switch asks for.
pub open spec fn display_hooks(has_debug: bool) -> Seq<Hook> {
    if has_debug {
        seq![Hook::Display]
    } else {
        Seq::empty()
    }
}

/// Decides on the rendering hook: it is there exactly when the enum derives
/// `Debug`.
pub fn generate_display_impl(has_debug: bool) -> (r: Option<Hook>)
    ensures
        has_debug ==> r == Some(Hook::Display),
        !has_debug ==> r is None,
{
    if has_debug {
        Some(Hook::Display)
    } else {
        None
    }
}

/// Decides on the serialization hooks: `to_serde` is there exactly when the
/// enum derives `Serialize`, `from_serde` exactly when it derives
/// `Deserialize`.
pub fn serde_impl(has_serialize: bool, has_deserialize: bool) -> (r: Vec<Hook>)
    ensures
        r@ == serde_hooks(has_serialize, has_deserialize),
{
    let mut hooks: Vec<Hook> = Vec::new();
    if has_serialize {
        hooks.push(Hook::ToSerde);
    }
    if has_deserialize {
        hooks.push(Hook::FromSerde);
    }
    hooks
}

} // verus!
