//! The worker identity, `<uuid>;<arch>`: a random UUID and the architecture
//! of the running binary. A static identity is kept in the state directory
//! across sessions; a dynamic one lives for a single session.
use vstd::prelude::*;
use crate::primitives::{is_hyphenated_v4_uuid, new_v4_uuid_string};

verus! {

/// An identity made of a UUID and the architecture.
pub open spec fn ident_spec(uuid: Seq<char>, arch: Seq<char>) -> Seq<char> {
    uuid + ";"@ + arch
}

/// An identity of a fresh random UUID for this architecture.
pub open spec fn is_fresh_ident(s: Seq<char>, arch: Seq<char>) -> bool {
    exists|u: Seq<char>| is_hyphenated_v4_uuid(u) && s == #[trigger] ident_spec(u, arch)
}

/// The identity text for a UUID and an architecture.
pub fn format_ident(uuid: &str, arch: &str) -> (s: String)
    ensures
        s@ == ident_spec(uuid@, arch@),
{
    let mut s = uuid.to_owned();
    s.append(";");
    s.append(arch);
    s
}

/// A new identity for the running instance, of a fresh random UUID.
pub fn create_new_ident(arch: &str) -> (s: String)
    ensures
        is_fresh_ident(s@, arch@),
{
    let uuid = new_v4_uuid_string();
    let s = format_ident(uuid.as_str(), arch);
    assert(s@ == ident_spec(uuid@, arch@));
    s
}

/// What was found of a kept identity.
pub enum IdentSource {
    /// No state directory is known.
    NoStateDirectory,
    /// The identity file existed; what reading it gave.
    Existing { contents: Option<String> },
    /// The identity file did not exist; the new static identity and whether
    /// writing it succeeded.
    Created { ident: String, written: bool },
}

/// The identity a session settles on from what it found, when that decides
/// it: the kept identity when it was read, the new static one when it was
/// written; nothing (a fresh dynamic identity) otherwise.
pub open spec fn settled_from(source: IdentSource) -> Option<Seq<char>> {
    match source {
        IdentSource::Existing { contents: Some(d) } => Some(d@),
        IdentSource::Created { ident, written: true } => Some(ident@),
        _ => None,
    }
}

/// `s` is an identity a session may settle on from `source` on `arch`: the
/// one `source` decides, or a fresh dynamic one when it decides none.
pub open spec fn settles(source: IdentSource, arch: Seq<char>, s: Seq<char>) -> bool {
    match settled_from(source) {
        Some(i) => s == i,
        None => is_fresh_ident(s, arch),
    }
}

/// `source` is what a session with a state directory finds when the identity
/// file holds `file` (`None`: there is no file): the file's contents, when
/// it exists and can be read; a new static identity, when it does not exist.
pub open spec fn found_in(source: IdentSource, file: Option<Seq<char>>) -> bool {
    match source {
        IdentSource::NoStateDirectory => false,
        IdentSource::Existing { contents } => match file {
            Some(f) => contents matches Some(d) ==> d@ == f,
            None => false,
        },
        IdentSource::Created { .. } => file is None,
    }
}

/// The identity file as a session that found `file` leaves it: a session
/// that created its static identity and wrote it leaves that identity in the
/// file; any other session leaves the file as it was.
pub open spec fn file_left(source: IdentSource, file: Option<Seq<char>>) -> Option<Seq<char>> {
    match source {
        IdentSource::Created { ident, written: true } => Some(ident@),
        _ => file,
    }
}

/// An identity is stored once and reused: the first session, finding no
/// identity file, writes its new static identity, settles on it and leaves
/// it in the file; a later session that reads that file settles on the same
/// identity, whatever it would have drawn, and leaves the file as it is.
pub proof fn lemma_identity_kept_across_sessions(
    first: IdentSource,
    later: IdentSource,
    arch: Seq<char>,
    first_ident: Seq<char>,
    later_ident: Seq<char>,
)
    requires
        found_in(first, None),
        first matches IdentSource::Created { written: true, .. },
        settles(first, arch, first_ident),
        found_in(later, file_left(first, None)),
        later matches IdentSource::Existing { contents: Some(_) },
        settles(later, arch, later_ident),
    ensures
        file_left(first, None) == Some(first_ident),
        later_ident == first_ident,
        file_left(later, file_left(first, None)) == Some(first_ident),
{
}

/// The identity a session uses: the kept one when it was read, the new
/// static one when it was written, and a fresh dynamic one otherwise.
pub fn settle_ident(source: IdentSource, arch: &str) -> (s: String)
    ensures
        match source {
            IdentSource::Existing { contents: Some(d) } => s@ == d@,
            IdentSource::Created { ident, written: true } => s@ == ident@,
            _ => is_fresh_ident(s@, arch@),
        },
        settles(source, arch@, s@),
{
    match source {
        IdentSource::Existing { contents: Some(d) } => d,
        IdentSource::Created { ident, written: true } => ident,
        _ => create_new_ident(arch),
    }
}

} // verus!
