use vstd::prelude::*;

verus! {

/// How a file was accessed, as far as watching for changes tells.
#[derive(Debug, Clone, Copy, PartialEq, Eq, Structural)]
pub enum AccessMode {
    Any,
    Execute,
    Read,
    Write,
    Other,
}

/// What kind of access a file saw.
#[derive(Debug, Clone, Copy, PartialEq, Eq, Structural)]
pub enum AccessKind {
    Any,
    Read,
    Open(AccessMode),
    Close(AccessMode),
    Other,
}

/// What happened to a watched file.
#[derive(Debug, Clone, Copy, PartialEq, Eq, Structural)]
pub enum EventKind {
    Any,
    Access(AccessKind),
    Create,
    Modify,
    Remove,
    Other,
}

/// Whether an event changed a file: it was closed after writing, created,
/// modified or removed.
pub open spec fn changes_file(kind: EventKind) -> bool {
    ||| kind == EventKind::Access(AccessKind::Close(AccessMode::Write))
    ||| kind == EventKind::Remove
    ||| kind == EventKind::Modify
    ||| kind == EventKind::Create
}

/// Whether an event of this kind changed a file.
pub fn is_change(kind: &EventKind) -> (res: bool)
    ensures
        res == changes_file(*kind),
{
    match kind {
        EventKind::Access(AccessKind::Close(AccessMode::Write)) => true,
        EventKind::Remove | EventKind::Modify | EventKind::Create => true,
        _ => false,
    }
}

} // verus!
