use vstd::prelude::*;
use vstd::string::StringExecFns;
use vstd::utf8::encode_utf8;

use crate::clock::{now_utc, Timestamp};
use crate::digest::{hex, hex_of, sha256, sha256_of};
use crate::error::{Error, Result};
use crate::ids::{is_file_id, new_nanoid};
use crate::text::{begins_with, join, same, starts_with, trim_end_slashes, without_end_slashes};
use crate::url::{encode_component, escaped_bytes};

verus! {

/// Largest preview image that a copy is kept of. The proxy has re-encoded it to a web-sized
/// WebP, so real previews are far below this.
pub const MAX_PREVIEW_COPY_BYTES: usize = 8_388_608;

/// What the proxy re-encodes still images to; anything else is left alone.
pub const PREVIEW_TYPE: &'static str = "image/webp";

/// How many characters the id of a stored file has.
pub const FILE_ID_SIZE: usize = 42;

/// Where a copy is stored among the files.
pub const PREVIEW_TAG: &'static str = "attachments";

/// What a copy is called.
pub const PREVIEW_NAME: &'static str = "preview.webp";

/// The image of a website preview, as far as keeping a copy of it goes.
#[derive(Debug, PartialEq, Eq)]
pub struct Preview {
    /// Whether this is the preview of a website
    pub website: bool,
    /// Whether the website hands out animations, which do not expire and can be large
    pub gif: bool,
    /// Address of the image, if there is one
    pub image_url: Option<String>,
}

/// Whether a copy of the image of a preview is to be kept.
pub open spec fn wants_copy(preview: Preview) -> bool {
    preview.website && !preview.gif && preview.image_url is Some
}

/// Whether there is something to copy at each of some places, and nowhere else.
pub open spec fn are_candidates(places: Seq<usize>, previews: Seq<Preview>) -> bool {
    &&& forall|i: int|
        0 <= i < places.len() ==> (#[trigger] places[i]) < previews.len() && wants_copy(
            previews[places[i] as int],
        )
    &&& forall|i: int, j: int|
        #![trigger places[i], places[j]]
        0 <= i < j < places.len() ==> places[i] < places[j]
    &&& forall|place: int|
        0 <= place < previews.len() && wants_copy(#[trigger] previews[place]) ==> exists|i: int|
            0 <= i < places.len() && #[trigger] places[i] == place
}

/// Where in a list of previews there is an image to keep a copy of, in order.
pub fn keep_copies_of_preview_images(previews: &Vec<Preview>) -> (places: Vec<usize>)
    ensures
        are_candidates(places@, previews@),
{
    let mut places: Vec<usize> = Vec::new();
    for at in 0..previews.len()
        invariant
            forall|i: int|
                0 <= i < places@.len() ==> (#[trigger] places@[i]) < at && wants_copy(
                    previews@[places@[i] as int],
                ),
            forall|i: int, j: int|
                #![trigger places@[i], places@[j]]
                0 <= i < j < places@.len() ==> places@[i] < places@[j],
            forall|place: int|
                0 <= place < at && wants_copy(#[trigger] previews@[place]) ==> exists|i: int|
                    0 <= i < places@.len() && #[trigger] places@[i] == place,
    {
        let ghost earlier = places@;
        let preview = &previews[at];
        let wanted = preview.website && !preview.gif && preview.image_url.is_some();
        if wanted {
            places.push(at);
            assert(places@[earlier.len() as int] == at);
        }
        assert forall|place: int|
            0 <= place < at + 1 && wants_copy(#[trigger] previews@[place]) implies exists|i: int|
            0 <= i < places@.len() && #[trigger] places@[i] == place by {
            if place < at {
                let i = choose|i: int| 0 <= i < earlier.len() && #[trigger] earlier[i] == place;
                assert(places@[i] == place);
            } else {
                assert(places@[earlier.len() as int] == place);
            }
        }
    }
    places
}

/// Point a preview at the copy of its image. Anything that failed leaves the address in place.
pub fn point_at_copy(previews: &mut Vec<Preview>, place: usize, outcome: Result<String>)
    requires
        place < old(previews)@.len(),
        wants_copy(old(previews)@[place as int]),
    ensures
        final(previews)@ == match outcome {
            Ok(url) => old(previews)@.update(
                place as int,
                Preview { image_url: Some(url), ..old(previews)@[place as int] },
            ),
            Err(_) => old(previews)@,
        },
{
    match outcome {
        Ok(url) => {
            let website = previews[place].website;
            let gif = previews[place].gif;
            previews.set(place, Preview { website, gif, image_url: Some(url) });
        },
        Err(_) => {},
    }
}

/// Where images come from and where copies go.
#[derive(Debug, PartialEq, Eq)]
pub struct PreviewConfig {
    /// Address of the file server
    pub autumn: String,
    /// Address of the preview proxy
    pub january: String,
    /// Bucket that files are stored in
    pub default_bucket: String,
    /// How many bytes encryption adds to a file
    pub authentication_tag_bytes: u32,
}

/// An image as it is stored, once for all files that hold the same bytes.
#[derive(Debug, PartialEq, Eq)]
pub struct FileHash {
    pub id: String,
    pub processed_hash: String,
    pub created_at: Timestamp,
    pub bucket_id: String,
    pub path: String,
    /// Nonce that it is encrypted with; empty until it is uploaded
    pub iv: String,
    pub width: u32,
    pub height: u32,
    pub animated: bool,
    pub content_type: String,
    pub size: u64,
}

/// A file that shows a stored image.
#[derive(Debug, PartialEq, Eq)]
pub struct PreviewFile {
    pub id: String,
    pub hash: String,
    pub tag: String,
    pub filename: String,
    pub uploader_id: String,
    /// The message that owns the file, so that it is not pruned
    pub message_id: String,
}

/// What keeping a copy waits for, and what it needs for it.
#[derive(Debug, PartialEq, Eq)]
pub enum CopyStage {
    /// The image is to be fetched through the proxy
    Fetching,
    /// Its bytes are to be read
    Reading,
    /// They are to be measured, in pixels
    Measuring { bytes: Vec<u8> },
    /// It is to be found out whether the same bytes are stored already
    LookingUp { bytes: Vec<u8>, width: u32, height: u32, hash: String },
    /// They are to be announced to the database
    Registering { bytes: Vec<u8>, file_hash: FileHash },
    /// They are to be uploaded
    Uploading { bytes: Vec<u8>, file_hash: FileHash },
    /// The nonce of the upload is to be noted
    Sealing { file_hash: FileHash },
    /// The file is to be added to the message
    Attaching { file: PreviewFile },
    /// The address to use, or why there is no copy
    Finished { outcome: Result<String> },
}

/// What came of what a stage asked for.
#[derive(Debug, PartialEq, Eq)]
pub enum CopyReply {
    /// It could not be carried out at all
    Lost,
    /// It was refused
    Refused { error: Error },
    /// The proxy answered
    Response { status: u16, content_type: Option<String> },
    /// The bytes of the image
    Body { bytes: Vec<u8> },
    /// Width and height, if the bytes are an image
    Size { size: Option<(u32, u32)> },
    /// The same bytes are known, and this is their nonce
    Known { iv: String },
    /// The upload is done
    Uploaded { nonce: String },
    /// It is done
    Done,
}

/// The keeping of one copy of a preview's image.
#[derive(Debug, PartialEq, Eq)]
pub struct PreviewCopy {
    pub config: PreviewConfig,
    pub message_id: String,
    pub uploader_id: String,
    pub url: String,
    pub stage: CopyStage,
}

/// Whether an address is one of the file server's own.
pub open spec fn is_ours(url: Seq<char>, autumn: Seq<char>) -> bool {
    begins_with(url, without_end_slashes(autumn) + "/"@)
}

/// The request for an image through the proxy.
pub open spec fn proxied(january: Seq<char>, url: Seq<char>) -> Seq<char> {
    without_end_slashes(january) + "/proxy?url="@ + escaped_bytes(encode_utf8(url))
}

/// The address of a stored copy.
pub open spec fn copy_url(autumn: Seq<char>, id: Seq<char>) -> Seq<char> {
    without_end_slashes(autumn) + "/attachments/"@ + id
}

/// Whether bytes may be kept: some, and not too many.
pub open spec fn keepable(bytes: Seq<u8>) -> bool {
    0 < bytes.len() <= MAX_PREVIEW_COPY_BYTES
}

/// The name that bytes are stored under.
pub open spec fn name_of(bytes: Seq<u8>) -> Seq<char> {
    hex_of(sha256_of(bytes))
}

/// Whether a stored image is that of some bytes.
pub open spec fn stores(file_hash: FileHash, bytes: Seq<u8>, config: PreviewConfig) -> bool {
    &&& file_hash.id@ == name_of(bytes)
    &&& file_hash.processed_hash == file_hash.id
    &&& file_hash.path == file_hash.id
    &&& file_hash.bucket_id == config.default_bucket
    &&& file_hash.content_type@ == PREVIEW_TYPE@
    &&& !file_hash.animated
    &&& file_hash.size == bytes.len() + config.authentication_tag_bytes
}

/// Whether what a stage carries is what it is to be: nothing is stored that is not keepable,
/// and everything under the name of its own bytes.
pub open spec fn sound(copy: PreviewCopy) -> bool {
    match copy.stage {
        CopyStage::Measuring { bytes } => keepable(bytes@),
        CopyStage::LookingUp { bytes, hash, .. } => keepable(bytes@) && hash@ == name_of(bytes@),
        CopyStage::Registering { bytes, file_hash } => keepable(bytes@) && stores(
            file_hash,
            bytes@,
            copy.config,
        ) && file_hash.iv@.len() == 0,
        CopyStage::Uploading { bytes, file_hash } => keepable(bytes@) && stores(
            file_hash,
            bytes@,
            copy.config,
        ) && file_hash.iv@.len() == 0,
        CopyStage::Attaching { file } => is_file_id(file.id@, FILE_ID_SIZE as nat),
        _ => true,
    }
}

/// Whether a file shows a stored image on the message that a copy is for.
pub open spec fn shows_on_message(file: PreviewFile, hash: Seq<char>, copy: PreviewCopy) -> bool {
    &&& is_file_id(file.id@, FILE_ID_SIZE as nat)
    &&& file.hash@ == hash
    &&& file.tag@ == PREVIEW_TAG@
    &&& file.filename@ == PREVIEW_NAME@
    &&& file.uploader_id == copy.uploader_id
    &&& file.message_id == copy.message_id
}

/// Whether a copy has come to its end with an error.
pub open spec fn ended(stage: CopyStage, error: Error) -> bool {
    stage matches CopyStage::Finished { outcome } && outcome == Err::<String, Error>(error)
}

/// Whether the proxy has found the image.
pub open spec fn is_success(status: u16) -> bool {
    200 <= status < 300
}

/// Whether one stage of a copy follows another on a reply.
pub open spec fn follows(copy: PreviewCopy, reply: CopyReply, next: CopyStage) -> bool {
    match copy.stage {
        CopyStage::Fetching => match reply {
            CopyReply::Response { status, content_type } => if !is_success(status) {
                ended(next, Error::ProxyError)
            } else if content_type matches Some(text) && text@ == PREVIEW_TYPE@ {
                next == CopyStage::Reading
            } else {
                ended(next, Error::FileTypeNotAllowed)
            },
            _ => ended(next, Error::ProxyError),
        },
        CopyStage::Reading => match reply {
            CopyReply::Body { bytes } => if keepable(bytes@) {
                next == (CopyStage::Measuring { bytes })
            } else {
                ended(next, Error::FileTooLarge { max: MAX_PREVIEW_COPY_BYTES })
            },
            _ => ended(next, Error::ProxyError),
        },
        CopyStage::Measuring { bytes } => match reply {
            CopyReply::Size { size: Some((width, height)) } => next matches CopyStage::LookingUp {
                bytes: kept,
                width: w,
                height: h,
                hash,
            } && kept == bytes && w == width && h == height && hash@ == name_of(bytes@),
            _ => ended(next, Error::FileTypeNotAllowed),
        },
        CopyStage::LookingUp { bytes, width, height, hash } => match reply {
            CopyReply::Known { iv } => if iv@.len() != 0 {
                next matches CopyStage::Attaching { file } && shows_on_message(file, hash@, copy)
            } else {
                ended(next, Error::InternalError)
            },
            _ => next matches CopyStage::Registering { bytes: kept, file_hash } && kept == bytes
                && stores(file_hash, bytes@, copy.config) && file_hash.width == width
                && file_hash.height == height && file_hash.iv@.len() == 0
                && file_hash.created_at.normal(),
        },
        CopyStage::Registering { bytes, file_hash } => match reply {
            CopyReply::Done => next == (CopyStage::Uploading { bytes, file_hash }),
            CopyReply::Refused { error } => ended(next, error),
            _ => ended(next, Error::InternalError),
        },
        CopyStage::Uploading { bytes, file_hash } => match reply {
            CopyReply::Uploaded { nonce } => next == (CopyStage::Sealing {
                file_hash: FileHash { iv: nonce, ..file_hash },
            }),
            CopyReply::Refused { error } => ended(next, error),
            _ => ended(next, Error::InternalError),
        },
        CopyStage::Sealing { file_hash } => match reply {
            CopyReply::Done => next matches CopyStage::Attaching { file } && shows_on_message(
                file,
                file_hash.id@,
                copy,
            ),
            CopyReply::Refused { error } => ended(next, error),
            _ => ended(next, Error::InternalError),
        },
        CopyStage::Attaching { file } => match reply {
            CopyReply::Done => next matches CopyStage::Finished { outcome } && outcome matches Ok(
                url,
            ) && url@ == copy_url(copy.config.autumn@, file.id@),
            CopyReply::Refused { error } => ended(next, error),
            _ => ended(next, Error::InternalError),
        },
        CopyStage::Finished { outcome } => next == copy.stage,
    }
}

fn failed(error: Error) -> (stage: CopyStage)
    ensures
        ended(stage, error),
{
    CopyStage::Finished { outcome: Err(error) }
}

fn is_preview_type(content_type: &Option<String>) -> (result: bool)
    ensures
        result == (*content_type matches Some(text) && text@ == PREVIEW_TYPE@),
{
    match content_type {
        Some(text) => same(text.as_str(), PREVIEW_TYPE),
        None => false,
    }
}

/// The name that bytes are stored under.
pub fn content_hash(bytes: &Vec<u8>) -> (hash: String)
    ensures
        hash@ == name_of(bytes@),
{
    hex(&sha256(bytes))
}

/// The image of some bytes as it is stored, from a time on.
pub fn new_file_hash(
    hash: &String,
    size: usize,
    width: u32,
    height: u32,
    config: &PreviewConfig,
    now: Timestamp,
) -> (file_hash: FileHash)
    requires
        size <= MAX_PREVIEW_COPY_BYTES,
    ensures
        file_hash.id == *hash,
        file_hash.processed_hash == *hash,
        file_hash.path == *hash,
        file_hash.created_at == now,
        file_hash.bucket_id == config.default_bucket,
        file_hash.iv@.len() == 0,
        file_hash.width == width,
        file_hash.height == height,
        !file_hash.animated,
        file_hash.content_type@ == PREVIEW_TYPE@,
        file_hash.size == size + config.authentication_tag_bytes,
{
    FileHash {
        id: hash.clone(),
        processed_hash: hash.clone(),
        created_at: now,
        bucket_id: config.default_bucket.clone(),
        path: hash.clone(),
        iv: String::new(),
        width,
        height,
        animated: false,
        content_type: PREVIEW_TYPE.to_owned(),
        size: size as u64 + config.authentication_tag_bytes as u64,
    }
}

impl PreviewCopy {
    /// Keep a copy of the image of a preview on a message; an image of our own is kept already.
    pub fn keep_copy(
        config: PreviewConfig,
        message_id: String,
        uploader_id: String,
        url: String,
    ) -> (copy: PreviewCopy)
        ensures
            sound(copy),
            copy.config == config,
            copy.message_id == message_id,
            copy.uploader_id == uploader_id,
            copy.url == url,
            copy.stage == if is_ours(url@, config.autumn@) {
                CopyStage::Finished { outcome: Ok::<String, Error>(url) }
            } else {
                CopyStage::Fetching
            },
    {
        let autumn = trim_end_slashes(config.autumn.as_str());
        let prefix = join(autumn.as_str(), "/");
        let stage = if starts_with(url.as_str(), prefix.as_str()) {
            CopyStage::Finished { outcome: Ok(url.clone()) }
        } else {
            CopyStage::Fetching
        };
        PreviewCopy { config, message_id, uploader_id, url, stage }
    }

    /// The request for the image.
    pub fn request(&self) -> (request: String)
        ensures
            request@ == proxied(self.config.january@, self.url@),
    {
        let mut request = trim_end_slashes(self.config.january.as_str());
        request.append("/proxy?url=");
        request.append(encode_component(self.url.as_str()).as_str());
        request
    }

    fn file_of(&self, hash: String) -> (file: PreviewFile)
        ensures
            shows_on_message(file, hash@, *self),
    {
        PreviewFile {
            id: new_nanoid(FILE_ID_SIZE),
            hash,
            tag: PREVIEW_TAG.to_owned(),
            filename: PREVIEW_NAME.to_owned(),
            uploader_id: self.uploader_id.clone(),
            message_id: self.message_id.clone(),
        }
    }

    fn address_of(&self, id: &str) -> (url: String)
        ensures
            url@ == copy_url(self.config.autumn@, id@),
    {
        let mut url = trim_end_slashes(self.config.autumn.as_str());
        url.append("/attachments/");
        url.append(id);
        url
    }

    /// Take up what came of what the stage asked for.
    pub fn advance(self, reply: CopyReply) -> (next: PreviewCopy)
        requires
            sound(self),
        ensures
            sound(next),
            follows(self, reply, next.stage),
            next.config == self.config,
            next.message_id == self.message_id,
            next.uploader_id == self.uploader_id,
            next.url == self.url,
    {
        let PreviewCopy { config, message_id, uploader_id, url, stage } = self;
        let mut copy = PreviewCopy {
            config,
            message_id,
            uploader_id,
            url,
            stage: CopyStage::Fetching,
        };
        copy.stage = match stage {
            CopyStage::Fetching => match reply {
                CopyReply::Response { status, content_type } => if status < 200 || status >= 300 {
                    failed(Error::ProxyError)
                } else if is_preview_type(&content_type) {
                    CopyStage::Reading
                } else {
                    failed(Error::FileTypeNotAllowed)
                },
                _ => failed(Error::ProxyError),
            },
            CopyStage::Reading => match reply {
                CopyReply::Body { bytes } => if bytes.len() == 0 || bytes.len()
                    > MAX_PREVIEW_COPY_BYTES {
                    failed(Error::FileTooLarge { max: MAX_PREVIEW_COPY_BYTES })
                } else {
                    CopyStage::Measuring { bytes }
                },
                _ => failed(Error::ProxyError),
            },
            CopyStage::Measuring { bytes } => match reply {
                CopyReply::Size { size: Some((width, height)) } => {
                    let hash = content_hash(&bytes);
                    CopyStage::LookingUp { bytes, width, height, hash }
                },
                _ => failed(Error::FileTypeNotAllowed),
            },
            CopyStage::LookingUp { bytes, width, height, hash } => match reply {
                CopyReply::Known { iv } => if iv.as_str().is_empty() {
                    // Another upload of these bytes is on its way. Uploading over it could leave
                    // the stored object and its nonce mismatched.
                    failed(Error::InternalError)
                } else {
                    CopyStage::Attaching { file: copy.file_of(hash) }
                },
                _ => {
                    let file_hash = new_file_hash(
                        &hash,
                        bytes.len(),
                        width,
                        height,
                        &copy.config,
                        now_utc(),
                    );
                    CopyStage::Registering { bytes, file_hash }
                },
            },
            CopyStage::Registering { bytes, file_hash } => match reply {
                CopyReply::Done => CopyStage::Uploading { bytes, file_hash },
                CopyReply::Refused { error } => failed(error),
                _ => failed(Error::InternalError),
            },
            CopyStage::Uploading { bytes, file_hash } => match reply {
                CopyReply::Uploaded { nonce } => {
                    let mut sealed = file_hash;
                    sealed.iv = nonce;
                    CopyStage::Sealing { file_hash: sealed }
                },
                CopyReply::Refused { error } => failed(error),
                _ => failed(Error::InternalError),
            },
            CopyStage::Sealing { file_hash } => match reply {
                CopyReply::Done => CopyStage::Attaching { file: copy.file_of(file_hash.id) },
                CopyReply::Refused { error } => failed(error),
                _ => failed(Error::InternalError),
            },
            CopyStage::Attaching { file } => match reply {
                CopyReply::Done => CopyStage::Finished {
                    outcome: Ok(copy.address_of(file.id.as_str())),
                },
                CopyReply::Refused { error } => failed(error),
                _ => failed(Error::InternalError),
            },
            CopyStage::Finished { outcome } => CopyStage::Finished { outcome },
        };
        copy
    }
}

/// How far a stage is from the end.
pub open spec fn steps_left(stage: CopyStage) -> nat {
    match stage {
        CopyStage::Fetching => 8,
        CopyStage::Reading => 7,
        CopyStage::Measuring { .. } => 6,
        CopyStage::LookingUp { .. } => 5,
        CopyStage::Registering { .. } => 4,
        CopyStage::Uploading { .. } => 3,
        CopyStage::Sealing { .. } => 2,
        CopyStage::Attaching { .. } => 1,
        CopyStage::Finished { .. } => 0,
    }
}

/// Keeping a copy comes to an end: every reply brings it closer, whatever it is, and only a
/// file that was added to the message ends it with an address of its own.
pub proof fn law_copy_ends(copy: PreviewCopy, reply: CopyReply, next: CopyStage)
    requires
        follows(copy, reply, next),
        !(copy.stage is Finished),
    ensures
        steps_left(next) < steps_left(copy.stage),
        next matches CopyStage::Finished { outcome } && outcome is Ok ==> copy.stage is Attaching
            && reply is Done,
{
}

/// The address of a copy is one of our own, so a preview that points at it is not copied again.
pub proof fn law_copies_are_ours(autumn: Seq<char>, id: Seq<char>)
    ensures
        is_ours(copy_url(autumn, id), autumn),
{
    reveal_strlit("/");
    reveal_strlit("/attachments/");
    let base = without_end_slashes(autumn);
    let url = copy_url(autumn, id);
    assert("/attachments/"@.len() == 13 && "/attachments/"@[0] == '/');
    assert("/"@.len() == 1 && "/"@[0] == '/');
    assert(url.take((base + "/"@).len() as int) =~= base + "/"@);
}

/// A place is given for exactly the previews of websites that have an image and do not hand out
/// animations, and the places are given in order.
pub proof fn law_images_of_websites_are_copied(
    previews: &Vec<Preview>,
    places: Vec<usize>,
    place: int,
    i: int,
    j: int,
)
    requires
        call_ensures(keep_copies_of_preview_images, (previews,), places),
        0 <= place < previews@.len(),
    ensures
        (exists|k: int| 0 <= k < places@.len() && #[trigger] places@[k] == place)
            <==> previews@[place].website && !previews@[place].gif && previews@[place].image_url
            is Some,
        0 <= i < places@.len() ==> places@[i] < previews@.len(),
        0 <= i < j < places@.len() ==> places@[i] < places@[j],
{
}

/// The preview at a place is pointed at its copy and keeps what else it says; where there is no
/// copy its address stays. The others stay as they are.
pub proof fn law_preview_points_at_its_copy(
    previews: &mut Vec<Preview>,
    place: usize,
    outcome: Result<String>,
    i: int,
)
    requires
        place < old(previews)@.len(),
        wants_copy(old(previews)@[place as int]),
        call_ensures(point_at_copy, (previews, place, outcome), ()),
        0 <= i < old(previews)@.len(),
    ensures
        final(previews)@.len() == old(previews)@.len(),
        i != place ==> final(previews)@[i] == old(previews)@[i],
        final(previews)@[i].website == old(previews)@[i].website,
        final(previews)@[i].gif == old(previews)@[i].gif,
        i == place && outcome is Ok ==> final(previews)@[i].image_url == Some(outcome->Ok_0),
        outcome is Err ==> final(previews)@[i] == old(previews)@[i],
{
}

/// An image is fetched unless its address begins with that of the file server and a slash, however
/// many slashes that one is configured with; an image of our own keeps its address.
pub proof fn law_own_images_are_kept(
    config: PreviewConfig,
    message_id: String,
    uploader_id: String,
    url: String,
    copy: PreviewCopy,
    autumn: &str,
    base: String,
)
    requires
        call_ensures(PreviewCopy::keep_copy, (config, message_id, uploader_id, url), copy),
        autumn@ == config.autumn@,
        call_ensures(trim_end_slashes, (autumn,), base),
    ensures
        copy.config == config,
        copy.message_id@ == message_id@,
        copy.uploader_id@ == uploader_id@,
        copy.url@ == url@,
        (exists|rest: Seq<char>| url@ == #[trigger] (base@.push('/') + rest)) ==> copy.stage is
            Finished && copy.stage->outcome is Ok && copy.stage->outcome->Ok_0@ == url@,
        !(exists|rest: Seq<char>| url@ == #[trigger] (base@.push('/') + rest)) ==> copy.stage is
            Fetching,
{
    reveal_strlit("/");
    let prefix = base@ + "/"@;
    assert(prefix =~= base@.push('/'));
    if begins_with(url@, prefix) {
        assert(url@ =~= base@.push('/') + url@.skip(prefix.len() as int));
    }
    if exists|rest: Seq<char>| url@ == #[trigger] (base@.push('/') + rest) {
        let rest = choose|rest: Seq<char>| url@ == #[trigger] (base@.push('/') + rest);
        assert(url@.take(prefix.len() as int) =~= prefix);
        assert(url@.subrange(0, prefix.len() as int) =~= prefix);
    }
}

/// An image is asked for at the proxy, with its whole address as a parameter.
pub proof fn law_image_is_fetched_through_the_proxy(
    copy: &PreviewCopy,
    request: String,
    january: &str,
    base: String,
)
    requires
        call_ensures(PreviewCopy::request, (copy,), request),
        january@ == copy.config.january@,
        call_ensures(trim_end_slashes, (january,), base),
    ensures
        request@ == base@ + "/proxy?url="@ + escaped_bytes(encode_utf8(copy.url@)),
{
}

/// A stage changes nothing of what the copy is for.
pub proof fn law_copy_stays_the_same(copy: PreviewCopy, reply: CopyReply, next: PreviewCopy)
    requires
        sound(copy),
        call_ensures(PreviewCopy::advance, (copy, reply), next),
    ensures
        next.config == copy.config,
        next.message_id == copy.message_id,
        next.uploader_id == copy.uploader_id,
        next.url == copy.url,
        copy.stage is Finished ==> next.stage == copy.stage,
{
}

/// An answer of the proxy is read exactly if it is a success and a WebP image; of the rest, the
/// one kind is the proxy's fault and the other is a file of a kind not kept.
pub proof fn law_only_webp_is_read(copy: PreviewCopy, reply: CopyReply, next: PreviewCopy)
    requires
        sound(copy),
        call_ensures(PreviewCopy::advance, (copy, reply), next),
        copy.stage is Fetching,
    ensures
        ({
            let found = reply is Response && 200 <= reply->status <= 299;
            let webp = reply->content_type is Some && reply->content_type->0@ == "image/webp"@;
            &&& next.stage is Reading <==> found && webp
            &&& !found ==> next.stage is Finished && next.stage->outcome is Err
                && next.stage->outcome->Err_0 is ProxyError
            &&& found && !webp ==> next.stage is Finished && next.stage->outcome is Err
                && next.stage->outcome->Err_0 is FileTypeNotAllowed
        }),
{
}

/// Bytes are taken on exactly if there are some and no more than eight mebibytes; they are taken
/// on unchanged.
pub proof fn law_large_images_are_left(copy: PreviewCopy, reply: CopyReply, next: PreviewCopy)
    requires
        sound(copy),
        call_ensures(PreviewCopy::advance, (copy, reply), next),
        copy.stage is Reading,
    ensures
        next.stage is Measuring <==> reply is Body && 0 < reply->bytes@.len() <= 8 * 1024 * 1024,
        next.stage is Measuring ==> next.stage->Measuring_bytes@ == reply->bytes@,
        reply is Body && !(next.stage is Measuring) ==> next.stage is Finished
            && next.stage->outcome is Err && next.stage->outcome->Err_0 is FileTooLarge
            && next.stage->outcome->Err_0->max == 8 * 1024 * 1024,
        !(reply is Body) ==> next.stage is Finished && next.stage->outcome is Err
            && next.stage->outcome->Err_0 is ProxyError,
{
}

/// What is not an image is left; of an image the size is noted, and the digest of its bytes, by
/// which it is looked up.
pub proof fn law_images_are_looked_up_by_digest(
    copy: PreviewCopy,
    reply: CopyReply,
    next: PreviewCopy,
    digest: Vec<u8>,
    hash: String,
)
    requires
        sound(copy),
        call_ensures(PreviewCopy::advance, (copy, reply), next),
        copy.stage is Measuring,
        digest@ == sha256_of(copy.stage->Measuring_bytes@),
        call_ensures(hex, (&digest,), hash),
    ensures
        next.stage is LookingUp <==> reply is Size && reply->size is Some,
        next.stage is LookingUp ==> {
            &&& next.stage->LookingUp_bytes@ == copy.stage->Measuring_bytes@
            &&& (next.stage->width, next.stage->height) == reply->size->0
            &&& next.stage->hash@ == hash@
        },
        !(next.stage is LookingUp) ==> next.stage is Finished && next.stage->outcome is Err
            && next.stage->outcome->Err_0 is FileTypeNotAllowed,
{
}

/// Bytes that are stored already are shown again without another upload, unless their upload is
/// still on its way. Others are announced first, under their digest, with the size that they have
/// encrypted and no nonce yet.
pub proof fn law_known_images_are_not_stored_twice(
    copy: PreviewCopy,
    reply: CopyReply,
    next: PreviewCopy,
)
    requires
        sound(copy),
        call_ensures(PreviewCopy::advance, (copy, reply), next),
        copy.stage is LookingUp,
    ensures
        reply is Known && reply->iv@.len() > 0 ==> next.stage is Attaching
            && next.stage->file.hash@ == copy.stage->hash@,
        reply is Known && reply->iv@.len() == 0 ==> next.stage is Finished
            && next.stage->outcome is Err && next.stage->outcome->Err_0 is InternalError,
        !(reply is Known) ==> {
            let stored = next.stage->Registering_file_hash;
            &&& next.stage is Registering
            &&& next.stage->Registering_bytes@ == copy.stage->LookingUp_bytes@
            &&& stored.id@ == copy.stage->hash@
            &&& stored.processed_hash@ == copy.stage->hash@
            &&& stored.path@ == copy.stage->hash@
            &&& stored.bucket_id@ == copy.config.default_bucket@
            &&& stored.iv@.len() == 0
            &&& stored.width == copy.stage->width
            &&& stored.height == copy.stage->height
            &&& !stored.animated
            &&& stored.content_type@ == "image/webp"@
            &&& stored.size == copy.stage->LookingUp_bytes@.len()
                + copy.config.authentication_tag_bytes
        },
{
}

/// A file on a message bears the message and who sent it, under a name and a tag of its own.
pub proof fn law_copy_belongs_to_its_message(
    copy: PreviewCopy,
    reply: CopyReply,
    next: PreviewCopy,
)
    requires
        sound(copy),
        call_ensures(PreviewCopy::advance, (copy, reply), next),
        next.stage is Attaching,
        copy.stage is LookingUp || copy.stage is Sealing,
    ensures
        next.stage->file.id@.len() == 42,
        next.stage->file.tag@ == "attachments"@,
        next.stage->file.filename@ == "preview.webp"@,
        next.stage->file.uploader_id@ == copy.uploader_id@,
        next.stage->file.message_id@ == copy.message_id@,
        copy.stage is Sealing ==> next.stage->file.hash@ == copy.stage->Sealing_file_hash.id@,
{
}

/// What was announced is uploaded as it is, then its nonce is noted, then the file is added to the
/// message, and then the copy has an address on the file server. A refusal ends it with its
/// reason.
pub proof fn law_image_is_stored_step_by_step(
    copy: PreviewCopy,
    reply: CopyReply,
    next: PreviewCopy,
    autumn: &str,
    base: String,
)
    requires
        sound(copy),
        call_ensures(PreviewCopy::advance, (copy, reply), next),
        copy.stage is Registering || copy.stage is Uploading || copy.stage is Sealing || copy.stage
            is Attaching,
        autumn@ == copy.config.autumn@,
        call_ensures(trim_end_slashes, (autumn,), base),
    ensures
        copy.stage is Registering && reply is Done ==> next.stage is Uploading
            && next.stage->Uploading_bytes@ == copy.stage->Registering_bytes@
            && next.stage->Uploading_file_hash == copy.stage->Registering_file_hash,
        copy.stage is Uploading && reply is Uploaded ==> {
            let stored = next.stage->Sealing_file_hash;
            let before = copy.stage->Uploading_file_hash;
            &&& next.stage is Sealing
            &&& stored.iv@ == reply->nonce@
            &&& stored == FileHash { iv: stored.iv, ..before }
        },
        copy.stage is Sealing && reply is Done ==> next.stage is Attaching,
        copy.stage is Attaching && reply is Done ==> next.stage is Finished && next.stage->outcome
            is Ok && next.stage->outcome->Ok_0@ == base@ + "/attachments/"@
            + copy.stage->file.id@,
        !(reply is Done) && !(copy.stage is Uploading && reply is Uploaded) ==> next.stage is
            Finished && next.stage->outcome is Err,
        reply is Refused ==> next.stage->outcome->Err_0 == reply->error,
{
}

/// Bytes are stored under the digits of their digest.
pub proof fn law_bytes_are_named_by_their_digest(
    bytes: &Vec<u8>,
    name: String,
    digest: Vec<u8>,
    digits: String,
)
    requires
        call_ensures(content_hash, (bytes,), name),
        digest@ == sha256_of(bytes@),
        call_ensures(hex, (&digest,), digits),
    ensures
        name@ == digits@,
{
}

/// An image is stored under its name in the configured bucket, as a still WebP image of its
/// measures, and takes what its bytes and the tag of the encryption take; it has no nonce yet.
pub proof fn law_stored_image_is_described(
    hash: &String,
    size: usize,
    width: u32,
    height: u32,
    config: &PreviewConfig,
    now: Timestamp,
    file_hash: FileHash,
)
    requires
        size <= 8_388_608,
        call_ensures(new_file_hash, (hash, size, width, height, config, now), file_hash),
    ensures
        file_hash.id@ == hash@,
        file_hash.processed_hash@ == hash@,
        file_hash.path@ == hash@,
        file_hash.created_at == now,
        file_hash.bucket_id@ == config.default_bucket@,
        file_hash.iv@.len() == 0,
        file_hash.width == width,
        file_hash.height == height,
        !file_hash.animated,
        file_hash.content_type@ == "image/webp"@,
        file_hash.size == size + config.authentication_tag_bytes,
{
}

} // verus!
