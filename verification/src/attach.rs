//! The attachment store: opaque blob files coupled to metadata rows in the
//! relational store.
//!
//! The two substrates cannot be changed atomically together, so both upload
//! and delete order their two sub-operations so that the failure-visible
//! state is always "row missing, blob present" (a tolerated orphan file),
//! never "row present, blob missing" (a dangling reference that would break
//! fetch): upload writes the blob before inserting the row, delete removes
//! the row before removing the blob.

use vstd::prelude::*;
use vstd::hash_map::StringHashMap;
use vstd::string::StringExecFns;
use crate::codec::{decode_base64, new_uuid_string, spec_base64_decoded};
use crate::db::{
    db_delete_image_row, db_insert_image, db_lookup_image_path, images_of, schema_unchanged,
    spec_decimal_digits, ImageRowData,
};
use crate::mime::{get_extension_from_mime, spec_extension_for_mime};

verus! {

pub const MSG_ATTACHMENT_NOT_FOUND: &'static str =
    "Failed to get image: no attachment row matches the given id";

/// An upload request as received from the command layer.
#[derive(Debug)]
pub struct UploadImageRequest {
    pub note_id: String,
    pub file_name: String,
    pub base64_data: String,
    pub mime_type: String,
    pub size: u64,
}

/// The response to a successful upload.
#[derive(Debug)]
pub struct UploadImageResponse {
    pub id: String,
    pub path: String,
    pub size: u64,
}

/// The blob directory: uniquely named files and their byte contents. Writes
/// are create-or-truncate on a unique name, so the directory denotes a map
/// from path to bytes.
pub struct BlobStore {
    files: StringHashMap<Vec<u8>>,
}

impl View for BlobStore {
    type V = Map<Seq<char>, Seq<u8>>;

    closed spec fn view(&self) -> Map<Seq<char>, Seq<u8>> {
        self.files@.map_values(|d: Vec<u8>| d@)
    }
}

impl BlobStore {
    /// An empty blob directory.
    pub fn new() -> (r: BlobStore)
        ensures
            r@ == Map::<Seq<char>, Seq<u8>>::empty(),
    {
        let r = BlobStore { files: StringHashMap::new() };
        proof {
            assert(r@ =~= Map::<Seq<char>, Seq<u8>>::empty());
        }
        r
    }

    /// Write a blob: create the file, or truncate and replace an existing one.
    pub fn write(&mut self, path: String, data: Vec<u8>)
        ensures
            final(self)@ == old(self)@.insert(path@, data@),
    {
        let ghost pk = path@;
        let ghost dv = data@;
        let ghost pre = self.files@;
        self.files.insert(path, data);
        proof {
            assert(self@ =~= old(self)@.insert(pk, dv));
        }
    }

    /// Read a blob's bytes, if a file with that path exists.
    pub fn read(&self, path: &str) -> (r: Option<&Vec<u8>>)
        ensures
            r is Some ==> self@.contains_key(path@) && (r->Some_0)@ == self@[path@],
            r is None ==> !self@.contains_key(path@),
    {
        let r = self.files.get(path);
        proof {
            if r is Some {
                assert(self@.contains_key(path@));
            }
        }
        r
    }

    /// Remove a blob; removing an absent path changes nothing.
    pub fn remove(&mut self, path: &str)
        ensures
            final(self)@ == old(self)@.remove(path@),
    {
        self.files.remove(path);
        proof {
            assert(self@ =~= old(self)@.remove(path@));
        }
    }
}

/// A well-formed blob file name under a mime type: a 36-character stem, a
/// dot, and the extension the mime type maps to.
pub open spec fn spec_blob_name_ok(name: Seq<char>, mime: Seq<char>) -> bool {
    exists|stem: Seq<char>| #![auto]
        stem.len() == 36 && name == stem + "."@ + spec_extension_for_mime(mime)
}

/// Everything upload decides before any substrate is touched: the decoded
/// payload, the unique blob file name, the blob path under the images
/// directory, and the generated attachment id.
pub struct UploadPlan {
    pub data: Vec<u8>,
    pub file_name: String,
    pub file_path: String,
    pub attachment_id: String,
}

/// Decode the payload and derive the blob name, blob path and attachment id.
/// Fails exactly when the payload is not well-formed base64; nothing is
/// touched either way.
pub fn plan_upload(request: &UploadImageRequest, images_dir: &str) -> (r: Result<
    UploadPlan,
    String,
>)
    ensures
        r is Ok <==> spec_base64_decoded(request.base64_data@) is Some,
        r is Err ==> "Failed to decode base64: "@.is_prefix_of((r->Err_0)@),
        r is Ok ==> (r->Ok_0).data@ == spec_base64_decoded(request.base64_data@)->Some_0,
        r is Ok ==> spec_blob_name_ok((r->Ok_0).file_name@, request.mime_type@),
        r is Ok ==> (r->Ok_0).file_path@ == images_dir@ + "/"@ + (r->Ok_0).file_name@,
        r is Ok ==> (r->Ok_0).attachment_id@.len() == 36,
{
    let data = decode_base64(request.base64_data.as_str())?;
    let stem = new_uuid_string();
    let ghost stem_v = stem@;
    let ext = get_extension_from_mime(request.mime_type.as_str());
    let mut file_name = stem;
    file_name.append(".");
    file_name.append(ext);
    let mut file_path = String::from_str(images_dir);
    file_path.append("/");
    file_path.append(file_name.as_str());
    let attachment_id = new_uuid_string();
    proof {
        assert(file_name@ == stem_v + "."@ + spec_extension_for_mime(request.mime_type@));
        assert(spec_blob_name_ok(file_name@, request.mime_type@));
    }
    Ok(UploadPlan { data, file_name, file_path, attachment_id })
}

/// Insert the metadata row describing a stored blob. Success implies the id
/// was not yet taken (a duplicate primary key fails) and exactly one row with
/// the given fields — the size as its decimal text — was added; on failure no
/// row changes.
pub fn store_image_metadata(
    conn: &mut rusqlite::Connection,
    id: &str,
    note_id: &str,
    filename: &str,
    file_path: &str,
    size: u64,
    mime_type: &str,
) -> (r: Result<(), String>)
    ensures
        r is Ok ==> !images_of(*old(conn)).contains_key(id@),
        r is Ok ==> images_of(*final(conn)) == images_of(*old(conn)).insert(
            id@,
            (note_id@, filename@, file_path@, spec_decimal_digits(size as nat), mime_type@),
        ),
        r is Err ==> images_of(*final(conn)) == images_of(*old(conn)),
        schema_unchanged(*old(conn), *final(conn)),
{
    db_insert_image(conn, id, note_id, filename, file_path, size, mime_type)
}

/// Upload an attachment: decode the payload, derive a unique blob path,
/// write the blob, then insert the metadata row. A malformed payload is
/// rejected before any substrate is touched; a row-insert failure after the
/// blob write leaves an orphan blob and no row — never a row without a blob.
pub fn upload_image(
    conn: &mut rusqlite::Connection,
    blobs: &mut BlobStore,
    images_dir: &str,
    request: &UploadImageRequest,
) -> (r: Result<UploadImageResponse, String>)
    ensures
        r is Ok ==> ({
            let resp = r->Ok_0;
            &&& spec_base64_decoded(request.base64_data@) is Some
            &&& final(blobs)@ == old(blobs)@.insert(
                resp.path@,
                spec_base64_decoded(request.base64_data@)->Some_0,
            )
            &&& !images_of(*old(conn)).contains_key(resp.id@)
            &&& resp.size == request.size
            &&& resp.id@.len() == 36
            &&& exists|name: Seq<char>| #![auto]
                spec_blob_name_ok(name, request.mime_type@) && resp.path@ == images_dir@ + "/"@
                    + name && images_of(*final(conn)) == images_of(*old(conn)).insert(
                    resp.id@,
                    (
                        request.note_id@,
                        name,
                        resp.path@,
                        spec_decimal_digits(request.size as nat),
                        request.mime_type@,
                    ),
                )
        }),
        spec_base64_decoded(request.base64_data@) is None ==> r is Err
            && "Failed to decode base64: "@.is_prefix_of((r->Err_0)@) && final(blobs)@ == old(
            blobs,
        )@ && images_of(*final(conn)) == images_of(*old(conn)),
        r is Err ==> images_of(*final(conn)) == images_of(*old(conn)) && (final(blobs)@ == old(
            blobs,
        )@ || exists|p: Seq<char>, d: Seq<u8>| #![auto] final(blobs)@ == old(blobs)@.insert(p, d)),
        schema_unchanged(*old(conn), *final(conn)),
{
    let plan = plan_upload(request, images_dir)?;
    let path_for_blob = plan.file_path.clone();
    blobs.write(path_for_blob, plan.data);
    let res = store_image_metadata(
        conn,
        plan.attachment_id.as_str(),
        request.note_id.as_str(),
        plan.file_name.as_str(),
        plan.file_path.as_str(),
        request.size,
        request.mime_type.as_str(),
    );
    match res {
        Ok(()) => Ok(
            UploadImageResponse {
                id: plan.attachment_id,
                path: plan.file_path,
                size: request.size,
            },
        ),
        Err(e) => Err(e),
    }
}

/// Fetch the stored path of an attachment. Succeeds exactly on an id with a
/// row (barring store errors), and the path returned is the stored one.
pub fn get_image(conn: &rusqlite::Connection, attachment_id: &str) -> (r: Result<String, String>)
    ensures
        r is Ok ==> images_of(*conn).contains_key(attachment_id@) && (r->Ok_0)@ == images_of(
            *conn,
        )[attachment_id@].2,
        !images_of(*conn).contains_key(attachment_id@) ==> r is Err,
        r is Err ==> "Failed to get image: "@.is_prefix_of((r->Err_0)@),
{
    match db_lookup_image_path(conn, attachment_id)? {
        Some(path) => Ok(path),
        None => {
            proof {
                lemma_not_found_message_prefix();
            }
            Err(String::from_str(MSG_ATTACHMENT_NOT_FOUND))
        },
    }
}

/// The fixed not-found report carries the fetch failure prefix, so every
/// fetch error is recognisable by it.
proof fn lemma_not_found_message_prefix()
    ensures
        "Failed to get image: "@.is_prefix_of(MSG_ATTACHMENT_NOT_FOUND@),
{
    reveal_strlit("Failed to get image: ");
    reveal_strlit("Failed to get image: no attachment row matches the given id");
    assert("Failed to get image: "@ =~= MSG_ATTACHMENT_NOT_FOUND@.subrange(0, 21));
}

/// Delete an attachment: look up its path, remove the row, then remove the
/// blob, in that fixed order. An unknown id fails, and any failure leaves
/// both substrates exactly as they were.
pub fn delete_image(
    conn: &mut rusqlite::Connection,
    blobs: &mut BlobStore,
    attachment_id: &str,
) -> (r: Result<(), String>)
    ensures
        r is Ok ==> images_of(*old(conn)).contains_key(attachment_id@) && images_of(*final(conn))
            == images_of(*old(conn)).remove(attachment_id@) && final(blobs)@ == old(blobs)@.remove(
            images_of(*old(conn))[attachment_id@].2,
        ),
        !images_of(*old(conn)).contains_key(attachment_id@) ==> r is Err,
        r is Err ==> images_of(*final(conn)) == images_of(*old(conn)) && final(blobs)@ == old(
            blobs,
        )@,
        schema_unchanged(*old(conn), *final(conn)),
{
    let looked = db_lookup_image_path(conn, attachment_id);
    let path = match looked {
        Ok(Some(p)) => p,
        Ok(None) => {
            return Err(String::from_str(MSG_ATTACHMENT_NOT_FOUND));
        },
        Err(e) => {
            return Err(e);
        },
    };
    db_delete_image_row(conn, attachment_id)?;
    blobs.remove(path.as_str());
    Ok(())
}

/// The metadata substrate after an upload of `data` recorded as `row` under
/// `id`, and the blob substrate beside it (the row's third field is the
/// stored blob path).
pub open spec fn spec_upload_state(
    rows: Map<Seq<char>, ImageRowData>,
    blobs: Map<Seq<char>, Seq<u8>>,
    id: Seq<char>,
    row: ImageRowData,
    data: Seq<u8>,
) -> (Map<Seq<char>, ImageRowData>, Map<Seq<char>, Seq<u8>>) {
    (rows.insert(id, row), blobs.insert(row.2, data))
}

/// What fetching an id yields from the metadata substrate: the stored path.
pub open spec fn spec_fetch(rows: Map<Seq<char>, ImageRowData>, id: Seq<char>) -> Option<
    Seq<char>,
> {
    if rows.contains_key(id) {
        Some(rows[id].2)
    } else {
        None
    }
}

/// Both substrates after a delete of `id`: the row goes, then the blob at
/// the row's path.
pub open spec fn spec_delete_state(
    rows: Map<Seq<char>, ImageRowData>,
    blobs: Map<Seq<char>, Seq<u8>>,
    id: Seq<char>,
) -> (Map<Seq<char>, ImageRowData>, Map<Seq<char>, Seq<u8>>) {
    if rows.contains_key(id) {
        (rows.remove(id), blobs.remove(rows[id].2))
    } else {
        (rows, blobs)
    }
}

/// Attachment round-trip: after an upload establishes the row and its blob,
/// fetching the id yields the stored path and the blob there holds exactly
/// the uploaded bytes; after a delete the row and the blob are both gone and
/// the fetch finds nothing.
pub proof fn lemma_attachment_round_trip(
    rows: Map<Seq<char>, ImageRowData>,
    blobs: Map<Seq<char>, Seq<u8>>,
    id: Seq<char>,
    row: ImageRowData,
    data: Seq<u8>,
)
    requires
        !rows.contains_key(id),
    ensures
        ({
            let (rows1, blobs1) = spec_upload_state(rows, blobs, id, row, data);
            &&& spec_fetch(rows1, id) == Some(row.2)
            &&& blobs1[row.2] == data
            &&& ({
                let (rows2, blobs2) = spec_delete_state(rows1, blobs1, id);
                &&& spec_fetch(rows2, id) is None
                &&& !blobs2.contains_key(row.2)
                &&& rows2 == rows
            })
        }),
{
    let (rows1, blobs1) = spec_upload_state(rows, blobs, id, row, data);
    let (rows2, blobs2) = spec_delete_state(rows1, blobs1, id);
    assert(rows2 =~= rows);
}

} // verus!
