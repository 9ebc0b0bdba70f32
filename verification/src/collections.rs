//! The error that a collection reports when it cannot reserve capacity.

use vstd::prelude::*;
use vstd::string::StringExecFns;
use vstd::std_specs::convert::{FromSpec, FromSpecImpl};
use crate::layout::{Layout, LayoutError};

verus! {

/// Why a reservation failed.
#[derive(Clone, PartialEq, Eq, Structural, Debug)]
pub enum TryReserveErrorKind {
    /// The capacity that was computed exceeds the collection's maximum.
    CapacityOverflow,
    /// The memory allocator declined the request.
    AllocError {
        /// The layout of the request that was declined.
        layout: Layout,
    },
}

/// The error of the `try_reserve` methods.
#[derive(Clone, PartialEq, Eq, Structural, Debug)]
pub struct TryReserveError {
    kind: TryReserveErrorKind,
}

/// The clause that names the reason of a failure.
pub open spec fn reason(kind: TryReserveErrorKind) -> Seq<char> {
    match kind {
        TryReserveErrorKind::CapacityOverflow => {
            " because the computed capacity exceeded the collection's maximum"@
        },
        TryReserveErrorKind::AllocError { .. } => {
            " because the memory allocator returned a error"@
        },
    }
}

/// The message of a failure: a fixed opening, then the reason.
pub open spec fn message(kind: TryReserveErrorKind) -> Seq<char> {
    "memory allocation failed"@ + reason(kind)
}

/// The two messages, written out.
pub proof fn lemma_messages(kind: TryReserveErrorKind)
    ensures
        kind is CapacityOverflow ==> message(kind)
            == "memory allocation failed because the computed capacity exceeded the collection's maximum"@,
        kind is AllocError ==> message(kind)
            == "memory allocation failed because the memory allocator returned a error"@,
{
    reveal_strlit("memory allocation failed");
    reveal_strlit(" because the computed capacity exceeded the collection's maximum");
    reveal_strlit(" because the memory allocator returned a error");
    reveal_strlit(
        "memory allocation failed because the computed capacity exceeded the collection's maximum",
    );
    reveal_strlit("memory allocation failed because the memory allocator returned a error");
    if kind is CapacityOverflow {
        assert(message(kind)
            =~= "memory allocation failed because the computed capacity exceeded the collection's maximum"@);
    } else {
        assert(message(kind)
            =~= "memory allocation failed because the memory allocator returned a error"@);
    }
}

impl TryReserveErrorKind {
    /// A copy of the kind.
    fn duplicate(&self) -> (r: TryReserveErrorKind)
        ensures
            r == *self,
    {
        match self {
            TryReserveErrorKind::CapacityOverflow => TryReserveErrorKind::CapacityOverflow,
            TryReserveErrorKind::AllocError { layout } => {
                TryReserveErrorKind::AllocError { layout: *layout }
            },
        }
    }
}

impl TryReserveError {
    /// The kind that the error was made from.
    pub closed spec fn spec_kind(self) -> TryReserveErrorKind {
        self.kind
    }

    /// Details about the allocation that caused the error.
    pub fn kind(&self) -> (r: TryReserveErrorKind)
        ensures
            r == self.spec_kind(),
    {
        self.kind.duplicate()
    }

    /// The message for a log. It names the reason and no size or alignment.
    pub fn to_string(&self) -> (r: String)
        ensures
            r@ == message(self.spec_kind()),
            self.spec_kind() is CapacityOverflow ==> r@
                == "memory allocation failed because the computed capacity exceeded the collection's maximum"@,
            self.spec_kind() is AllocError ==> r@
                == "memory allocation failed because the memory allocator returned a error"@,
    {
        let opening = String::from_str("memory allocation failed");
        let clause = match self.kind {
            TryReserveErrorKind::CapacityOverflow => {
                " because the computed capacity exceeded the collection's maximum"
            },
            TryReserveErrorKind::AllocError { .. } => {
                " because the memory allocator returned a error"
            },
        };
        proof {
            lemma_messages(self.kind);
        }
        opening.concat(clause)
    }
}

impl From<TryReserveErrorKind> for TryReserveError {
    fn from(kind: TryReserveErrorKind) -> (r: TryReserveError) {
        TryReserveError { kind }
    }
}

impl FromSpecImpl<TryReserveErrorKind> for TryReserveError {
    open spec fn obeys_from_spec() -> bool {
        true
    }

    closed spec fn from_spec(kind: TryReserveErrorKind) -> TryReserveError {
        TryReserveError { kind }
    }
}

impl From<LayoutError> for TryReserveErrorKind {
    /// Always gives `CapacityOverflow`.
    fn from(error: LayoutError) -> (r: TryReserveErrorKind) {
        TryReserveErrorKind::CapacityOverflow
    }
}

impl FromSpecImpl<LayoutError> for TryReserveErrorKind {
    open spec fn obeys_from_spec() -> bool {
        true
    }

    open spec fn from_spec(error: LayoutError) -> TryReserveErrorKind {
        TryReserveErrorKind::CapacityOverflow
    }
}

/// An error made from a kind gives that kind back.
pub proof fn lemma_from_kind_round_trip(kind: TryReserveErrorKind)
    ensures
        <TryReserveError as FromSpec<TryReserveErrorKind>>::from_spec(kind).spec_kind() == kind,
{
}

/// Whatever shape was refused, the refusal converts to `CapacityOverflow`.
pub proof fn lemma_layout_error_is_capacity_overflow(error: LayoutError)
    ensures
        <TryReserveErrorKind as FromSpec<LayoutError>>::from_spec(error)
            == TryReserveErrorKind::CapacityOverflow,
{
}

} // verus!
