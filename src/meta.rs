//! Rendering of a file's ownership, permissions, size and timestamps.
use vstd::prelude::*;
use crate::schema::{indent_line, indented_line};
use crate::text::{chars_of, concat_chars, join, join_chars, views};

verus! {

/// A point in time as seconds and nanoseconds since the Unix epoch.
#[derive(Clone, Copy, Debug, PartialEq, Eq, Structural)]
pub struct Timestamp {
    pub secs: u64,
    pub nanos: u32,
}

/// What is shown of a file's metadata, captured at one moment. A timestamp
/// that the file system does not provide is `None`.
#[derive(Clone, Copy, Debug, PartialEq, Eq, Structural)]
pub struct FileMeta {
    pub uid: u32,
    pub gid: u32,
    pub len: u64,
    pub mode: u32,
    pub created: Option<Timestamp>,
    pub modified: Option<Timestamp>,
    pub accessed: Option<Timestamp>,
}

/// Why a metadata block could not be rendered.
#[derive(Clone, Copy, Debug, PartialEq, Eq, Structural)]
pub enum MetaError {
    /// A timestamp is not provided by the file system.
    Unavailable,
    /// A timestamp lies at or after the start of the year 10000, or its
    /// nanoseconds are not below one second.
    OutOfRange,
}

/// The first second, counted from the epoch, of the year 10000.
pub const YEAR_10000: u64 = 253_402_300_800;

/// One billion: nanoseconds in a second.
pub const NANOS_PER_SEC: u32 = 1_000_000_000;

/// A timestamp that RFC 3339 text can show.
pub open spec fn in_range(t: Timestamp) -> bool {
    t.secs < 253_402_300_800 && t.nanos < 1_000_000_000
}

/// All three timestamps are present.
pub open spec fn all_present(m: FileMeta) -> bool {
    m.created is Some && m.modified is Some && m.accessed is Some
}

/// All three timestamps are present and in range.
pub open spec fn renderable(m: FileMeta) -> bool {
    all_present(m) && in_range(m.created->0) && in_range(m.modified->0) && in_range(
        m.accessed->0,
    )
}

/// What `humantime::format_rfc3339` shows for the time `secs` seconds and
/// `nanos` nanoseconds after the epoch.
pub uninterp spec fn rfc3339_text(secs: u64, nanos: u32) -> Seq<char>;

/// Relies on `humantime::format_rfc3339` and its `Display`, which fails from
/// the year 10000 on; `Duration::new` carries whole seconds out of `nanos`.
#[verifier::external_body]
fn format_rfc3339(secs: u64, nanos: u32) -> (r: String)
    requires
        secs < 253_402_300_800,
        nanos < 1_000_000_000,
    ensures
        r@ == rfc3339_text(secs, nanos),
{
    let t = std::time::UNIX_EPOCH + std::time::Duration::new(secs, nanos);
    humantime::format_rfc3339(t).to_string()
}

/// What `human_units::Size` shows for a byte count.
pub uninterp spec fn size_text(n: u64) -> Seq<char>;

/// Relies on the `Display` of `human_units::Size`.
#[verifier::external_body]
fn format_size(n: u64) -> (r: String)
    ensures
        r@ == size_text(n),
{
    human_units::Size(n).to_string()
}

/// What `umask::Mode` shows for permission bits.
pub uninterp spec fn mode_text(mode: u32) -> Seq<char>;

/// Relies on `umask::Mode::from` and the `Display` of `umask::Mode`.
#[verifier::external_body]
fn format_mode(mode: u32) -> (r: String)
    ensures
        r@ == mode_text(mode),
{
    umask::Mode::from(mode).to_string()
}

/// The decimal digit for `d`.
pub open spec fn digit(d: nat) -> char {
    if d == 0 { '0' } else if d == 1 { '1' } else if d == 2 { '2' } else if d == 3 { '3' }
    else if d == 4 { '4' } else if d == 5 { '5' } else if d == 6 { '6' } else if d == 7 { '7' }
    else if d == 8 { '8' } else { '9' }
}

/// `n` in decimal, without leading zeros.
pub open spec fn decimal(n: nat) -> Seq<char>
    decreases n,
{
    if n < 10 {
        seq![digit(n)]
    } else {
        decimal(n / 10).push(digit(n % 10))
    }
}

/// Relies on `u32::to_string`: the number in decimal.
#[verifier::external_body]
fn format_u32(n: u32) -> (r: String)
    ensures
        r@ == decimal(n as nat),
{
    n.to_string()
}

/// The lines of the metadata block, before indentation.
pub open spec fn meta_lines(m: FileMeta) -> Seq<Seq<char>> {
    seq![
        "btime "@ + rfc3339_text(m.created->0.secs, m.created->0.nanos),
        "mtime "@ + rfc3339_text(m.modified->0.secs, m.modified->0.nanos),
        "atime "@ + rfc3339_text(m.accessed->0.secs, m.accessed->0.nanos),
        "size "@ + size_text(m.len),
        "perm "@ + mode_text(m.mode),
        "owner "@ + decimal(m.uid as nat) + ":"@ + decimal(m.gid as nat),
    ]
}

/// The metadata block: each line indented, joined by line feeds.
pub open spec fn meta_block(m: FileMeta) -> Seq<char> {
    join(meta_lines(m).map_values(|l: Seq<char>| indent_line(l)), "\n"@)
}

fn labelled(label: &str, value: &str) -> (r: Vec<char>)
    ensures
        r@ == indent_line(label@ + value@),
{
    let joined = concat_chars(&chars_of(label), &chars_of(value));
    indented_line(&joined)
}

fn timestamp_line(label: &str, t: Timestamp) -> (r: Vec<char>)
    requires
        in_range(t),
    ensures
        r@ == indent_line(label@ + rfc3339_text(t.secs, t.nanos)),
{
    labelled(label, format_rfc3339(t.secs, t.nanos).as_str())
}

fn timestamp_error(t: Option<Timestamp>) -> (r: Option<MetaError>)
    ensures
        r == (if t is None {
            Some(MetaError::Unavailable)
        } else if !in_range(t->0) {
            Some(MetaError::OutOfRange)
        } else {
            None
        }),
{
    match t {
        None => Some(MetaError::Unavailable),
        Some(t) => if t.secs < YEAR_10000 && t.nanos < NANOS_PER_SEC {
            None
        } else {
            Some(MetaError::OutOfRange)
        },
    }
}

/// Renders the metadata block: creation, modification and access times,
/// size, permissions and owner. Fails with `Unavailable` when a timestamp is
/// missing, else with `OutOfRange` when one cannot be shown.
pub fn metadata_fmt(meta: &FileMeta) -> (r: Result<String, MetaError>)
    ensures
        r is Ok <==> renderable(*meta),
        r matches Ok(s) ==> s@ == meta_block(*meta),
        r matches Err(e) ==> e == (if !all_present(*meta) {
            MetaError::Unavailable
        } else {
            MetaError::OutOfRange
        }),
{
    let (c, m, a) = match (meta.created, meta.modified, meta.accessed) {
        (Some(c), Some(m), Some(a)) => (c, m, a),
        _ => {
            return Err(MetaError::Unavailable);
        },
    };
    if timestamp_error(meta.created).is_some() || timestamp_error(meta.modified).is_some()
        || timestamp_error(meta.accessed).is_some() {
        return Err(MetaError::OutOfRange);
    }
    let mut lines: Vec<Vec<char>> = Vec::new();
    lines.push(timestamp_line("btime ", c));
    lines.push(timestamp_line("mtime ", m));
    lines.push(timestamp_line("atime ", a));
    lines.push(labelled("size ", format_size(meta.len).as_str()));
    lines.push(labelled("perm ", format_mode(meta.mode).as_str()));
    let owner = concat_chars(
        &concat_chars(&chars_of(format_u32(meta.uid).as_str()), &chars_of(":")),
        &chars_of(format_u32(meta.gid).as_str()),
    );
    let owner_label = chars_of("owner ");
    assert(owner_label@ + owner@ =~= "owner "@ + decimal(meta.uid as nat) + ":"@ + decimal(
        meta.gid as nat,
    ));
    lines.push(indented_line(&concat_chars(&owner_label, &owner)));
    assert(views(lines@) =~= meta_lines(*meta).map_values(|l: Seq<char>| indent_line(l)));
    let nl = chars_of("\n");
    let block = join_chars(&lines, &nl);
    Ok(crate::text::string_of(&block))
}

} // verus!
