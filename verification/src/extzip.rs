//! Trusted layer over the `zip` crate: an archive is modelled as the
//! sequence of its entries, each a name (characters) and a content
//! (the entry's uncompressed bytes), in central-directory order.

use vstd::prelude::*;

verus! {

#[verifier::external_type_specification]
#[verifier::external_body]
#[verifier::reject_recursive_types(T)]
pub struct ExCursor<T>(std::io::Cursor<T>);

#[verifier::external_type_specification]
#[verifier::external_body]
#[verifier::reject_recursive_types(R)]
pub struct ExZipArchive<R>(zip::ZipArchive<R>);

/// An archive writer under construction. The `zip::ZipWriter` type
/// cannot be declared to the verifier (its generic carries `Write` and
/// `Seek` bounds), so it is held opaquely in a struct of our own.
#[verifier::external_body]
pub struct ArchiveWriter {
    inner: zip::ZipWriter<std::io::Cursor<Vec<u8>>>,
}

#[verifier::external_type_specification]
#[verifier::external_body]
pub struct ExZipError(zip::result::ZipError);

/// Whether the bytes parse as a ZIP container.
pub uninterp spec fn zip_parse_ok(bytes: Seq<u8>) -> bool;

/// The entries that the bytes parse to: for each, its name and its
/// uncompressed content, in central-directory order.
pub uninterp spec fn zip_parse(bytes: Seq<u8>) -> Seq<(Seq<char>, Seq<u8>)>;

/// The entries held by an open archive reader.
pub uninterp spec fn zip_entries(a: zip::ZipArchive<std::io::Cursor<Vec<u8>>>) -> Seq<
    (Seq<char>, Seq<u8>),
>;

/// The bytes an open archive reader was opened from.
pub uninterp spec fn zip_source(a: zip::ZipArchive<std::io::Cursor<Vec<u8>>>) -> Seq<u8>;

/// Whether looking the named entry up in the archive of these bytes
/// and decompressing its content in full succeeds. The outcome is a
/// function of the bytes and the name alone: the lookup is by exact
/// name in the parsed index, the entry is found by absolute seek, and
/// decompression of fixed bytes is deterministic.
pub uninterp spec fn zip_read_ok(bytes: Seq<u8>, name: Seq<char>) -> bool;

/// Whether raw-copying the named entry of the archive `a` into the
/// writer `w` succeeds; deterministic in the two states and the name.
pub uninterp spec fn zip_copy_ok(
    w: ArchiveWriter,
    a: zip::ZipArchive<std::io::Cursor<Vec<u8>>>,
    name: Seq<char>,
) -> bool;

/// Whether starting a fresh entry with this name in the writer `w` and
/// writing these bytes succeeds; deterministic in its arguments.
pub uninterp spec fn zip_append_ok(w: ArchiveWriter, name: Seq<char>, data: Seq<u8>) -> bool;

/// Whether finishing the writer `w` succeeds; deterministic in `w`.
pub uninterp spec fn zip_finish_ok(w: ArchiveWriter) -> bool;

/// The entries written into an archive writer so far.
pub uninterp spec fn writer_entries(w: ArchiveWriter) -> Seq<(Seq<char>, Seq<u8>)>;

/// Whether every entry name occurs only once.
pub open spec fn unique_names(es: Seq<(Seq<char>, Seq<u8>)>) -> bool {
    forall|i: int, j: int| 0 <= i < es.len() && 0 <= j < es.len() && i != j ==> es[i].0 != es[j].0
}

/// Relies on zip::ZipArchive::new: parses the central directory of the
/// byte container, deterministically in the bytes; entries are keyed by
/// name in an index map, so names are unique and keep directory order;
/// fails exactly when the bytes are not a parseable archive.
#[verifier::external_body]
pub fn archive_open(bytes: Vec<u8>) -> (r: Result<
    zip::ZipArchive<std::io::Cursor<Vec<u8>>>,
    zip::result::ZipError,
>)
    ensures
        r is Ok <==> zip_parse_ok(bytes@),
        r matches Ok(a) ==> zip_entries(a) == zip_parse(bytes@) && unique_names(zip_entries(a))
            && zip_source(a) == bytes@,
{
    zip::ZipArchive::new(std::io::Cursor::new(bytes))
}

/// Relies on zip::ZipArchive::file_names: yields every entry's name,
/// in the order the archive's index holds them.
#[verifier::external_body]
pub fn archive_names(a: &zip::ZipArchive<std::io::Cursor<Vec<u8>>>) -> (r: Vec<String>)
    ensures
        r@.len() == zip_entries(*a).len(),
        forall|i: int| 0 <= i < r@.len() ==> r@[i]@ == zip_entries(*a)[i].0,
{
    a.file_names().map(|s| s.to_string()).collect()
}

/// Relies on zip::ZipArchive::by_name and std::io::Read::read_to_end:
/// looks the entry up by its exact name and decompresses its content
/// in full; absence of the name, or a failing read, is an error.
#[verifier::external_body]
pub fn archive_read(a: &mut zip::ZipArchive<std::io::Cursor<Vec<u8>>>, name: &String) -> (r:
    Result<Vec<u8>, zip::result::ZipError>)
    ensures
        zip_entries(*final(a)) == zip_entries(*old(a)),
        zip_source(*final(a)) == zip_source(*old(a)),
        r is Ok <==> zip_read_ok(zip_source(*old(a)), name@),
        r matches Ok(v) ==> exists|i: int|
            0 <= i < zip_entries(*old(a)).len() && #[trigger] zip_entries(*old(a))[i].0 == name@
                && v@ == zip_entries(*old(a))[i].1,
        (forall|i: int|
            0 <= i < zip_entries(*old(a)).len() ==> #[trigger] zip_entries(*old(a))[i].0 != name@)
            ==> r is Err,
{
    let mut f = a.by_name(name.as_str())?;
    let mut buf = Vec::new();
    std::io::Read::read_to_end(&mut f, &mut buf)?;
    Ok(buf)
}

/// Relies on zip::ZipWriter::new: a fresh writer holds no entries.
#[verifier::external_body]
pub fn writer_new() -> (w: ArchiveWriter)
    ensures
        writer_entries(w) == Seq::<(Seq<char>, Seq<u8>)>::empty(),
{
    ArchiveWriter { inner: zip::ZipWriter::new(std::io::Cursor::new(Vec::new())) }
}

/// Relies on zip::ZipArchive::by_name and zip::ZipWriter::raw_copy_file:
/// appends the named source entry under its own name, copying its
/// compressed bytes and framing verbatim, so its content is preserved.
#[verifier::external_body]
pub fn writer_copy_from(
    w: &mut ArchiveWriter,
    a: &mut zip::ZipArchive<std::io::Cursor<Vec<u8>>>,
    name: &String,
) -> (r: Result<(), zip::result::ZipError>)
    ensures
        zip_entries(*final(a)) == zip_entries(*old(a)),
        zip_source(*final(a)) == zip_source(*old(a)),
        r is Ok <==> zip_copy_ok(*old(w), *old(a), name@),
        r is Ok ==> exists|i: int|
            0 <= i < zip_entries(*old(a)).len() && #[trigger] zip_entries(*old(a))[i].0 == name@
                && writer_entries(*final(w)) == writer_entries(*old(w)).push(
                (name@, zip_entries(*old(a))[i].1),
            ),
{
    let f = a.by_name(name.as_str())?;
    w.inner.raw_copy_file(f)
}

/// Relies on zip::ZipWriter::start_file with default options and
/// std::io::Write::write_all: appends a fresh entry with the given name
/// and content.
#[verifier::external_body]
pub fn writer_write_entry(
    w: &mut ArchiveWriter,
    name: &String,
    data: &Vec<u8>,
) -> (r: Result<(), zip::result::ZipError>)
    ensures
        r is Ok <==> zip_append_ok(*old(w), name@, data@),
        r is Ok ==> writer_entries(*final(w)) == writer_entries(*old(w)).push((name@, data@)),
{
    w.inner.start_file(name.as_str(), zip::write::SimpleFileOptions::default())?;
    std::io::Write::write_all(&mut w.inner, data.as_slice())?;
    Ok(())
}

/// Relies on zip::ZipWriter::finish: writes the central directory and
/// returns the complete container; the emitted bytes are a valid
/// archive that parses back to exactly the written entries, since each
/// entry's name and (compressed or copied) data were stored with it.
#[verifier::external_body]
pub fn writer_finish(w: ArchiveWriter) -> (r: Result<Vec<u8>, zip::result::ZipError>)
    ensures
        r is Ok <==> zip_finish_ok(w),
        r matches Ok(v) ==> zip_parse_ok(v@) && zip_parse(v@) == writer_entries(w),
{
    Ok(w.inner.finish()?.into_inner())
}

} // verus!
