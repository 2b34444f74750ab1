//! The image service.

use vstd::prelude::*;

use crate::status;
use crate::status::{Code, Status};
use crate::text;

verus! {

/// The image service: what it asks.
pub struct ImageServiceImpl<S> {
    pub image_service: S,
}

impl<S> ImageServiceImpl<S> {
    /// A service over this.
    pub fn new(image_service: S) -> (res: Self)
        ensures
            res.image_service == image_service,
    {
        ImageServiceImpl { image_service }
    }
}

/// What is known of an image.
#[derive(Clone, Debug, PartialEq, Eq)]
pub struct ImageRecord {
    pub reference: String,
    pub digest: String,
    pub size: u64,
}

/// What a client is told of an image.
#[derive(Clone, Debug, PartialEq, Eq)]
pub struct ImageInfo {
    pub digest: String,
    pub tags: Vec<String>,
    pub size: u64,
    /// Not known, and so empty.
    pub created_at: String,
}

/// Whether this is what a client is told of an image.
pub open spec fn tells_image(info: ImageInfo, image: ImageRecord) -> bool {
    &&& info.digest@ == image.digest@
    &&& text::texts(info.tags@) == seq![image.reference@]
    &&& info.size == image.size
    &&& info.created_at@ == ""@
}

/// What a client is told of an image.
pub fn image_info(image: ImageRecord) -> (res: ImageInfo)
    ensures
        tells_image(res, image),
        res.digest@ == image.digest@,
        res.size == image.size,
        res.tags@.len() == 1 && res.tags@[0]@ == image.reference@,
{
    let mut tags: Vec<String> = Vec::new();
    tags.push(image.reference);
    assert(text::texts(tags@) == seq![image.reference@]);
    ImageInfo { digest: image.digest, tags, size: image.size, created_at: "".to_owned() }
}

/// What a client is told of all images.
pub fn list_images(images: Vec<ImageRecord>) -> (res: Vec<ImageInfo>)
    ensures
        res@.len() == images@.len(),
        forall|i: int| 0 <= i < images@.len() ==> tells_image(#[trigger] res@[i], images@[i]),
{
    let ghost all = images@;
    let mut out: Vec<ImageInfo> = Vec::new();
    for image in it: images
        invariant
            it.seq() == all,
            out@.len() == it.index(),
            forall|j: int| 0 <= j < out@.len() ==> tells_image(#[trigger] out@[j], all[j]),
    {
        out.push(image_info(image));
    }
    out
}

/// What is known of an image in full.
#[derive(Clone, Debug, PartialEq, Eq)]
pub struct ImageInspection {
    pub digest: String,
    pub size: u64,
    pub config_json: String,
    pub layers: Vec<String>,
}

/// What a client is told of an image in full.
#[derive(Clone, Debug, PartialEq, Eq)]
pub struct InspectImageResponse {
    pub digest: String,
    pub tags: Vec<String>,
    pub size: u64,
    pub config_json: String,
    pub layers: Vec<String>,
}

/// Whether this is what a client is told of the image of a reference in full.
pub open spec fn tells_inspected(
    response: InspectImageResponse,
    reference: Seq<char>,
    inspection: ImageInspection,
) -> bool {
    &&& response.digest@ == inspection.digest@
    &&& text::texts(response.tags@) == seq![reference]
    &&& response.size == inspection.size
    &&& response.config_json@ == inspection.config_json@
    &&& response.layers == inspection.layers
}

/// What a client is told of the image of a reference in full.
pub fn inspected(reference: String, inspection: ImageInspection) -> (res: InspectImageResponse)
    ensures
        tells_inspected(res, reference@, inspection),
        res.digest@ == inspection.digest@,
        text::texts(res.tags@) == seq![reference@],
        res.size == inspection.size,
        res.config_json@ == inspection.config_json@,
        res.layers == inspection.layers,
{
    let mut tags: Vec<String> = Vec::new();
    tags.push(reference);
    assert(text::texts(tags@) == seq![reference@]);
    InspectImageResponse {
        digest: inspection.digest,
        tags,
        size: inspection.size,
        config_json: inspection.config_json,
        layers: inspection.layers,
    }
}

/// The status for a pull that failed.
pub fn pull_failed(reason: String) -> (res: Status)
    ensures
        res@ == status::status(Code::Internal, reason@),
{
    Status::new(Code::Internal, reason)
}

/// A client is told of an image by its own record: the digest under the digest, the
/// reference as its one tag, and its size; when it was made is not told.
pub proof fn law_image_is_told_as_recorded(info: ImageInfo, image: ImageRecord)
    requires
        tells_image(info, image),
    ensures
        info.digest@ == image.digest@,
        info.tags@.len() == 1,
        info.tags@[0]@ == image.reference@,
        info.size == image.size,
        info.created_at@.len() == 0,
{
    reveal_strlit("");
    assert(text::texts(info.tags@).len() == info.tags@.len());
    assert(text::texts(info.tags@)[0] == info.tags@[0]@);
}

/// An image that is inspected is told in full: its digest, its size, its configuration
/// and its layers are the image's own, and its one tag is the reference that was asked
/// for.
pub proof fn law_image_is_inspected_in_full(
    response: InspectImageResponse,
    reference: Seq<char>,
    inspection: ImageInspection,
)
    requires
        tells_inspected(response, reference, inspection),
    ensures
        response.digest@ == inspection.digest@,
        response.config_json@ == inspection.config_json@,
        response.size == inspection.size,
        response.layers@ == inspection.layers@,
        response.tags@.len() == 1,
        response.tags@[0]@ == reference,
{
    assert(text::texts(response.tags@).len() == response.tags@.len());
    assert(text::texts(response.tags@)[0] == response.tags@[0]@);
}

/// What is told of an image in a listing and what is told of it in full agree, where the
/// inspection found the image that was recorded.
pub proof fn law_listing_agrees_with_inspection(
    info: ImageInfo,
    image: ImageRecord,
    response: InspectImageResponse,
    inspection: ImageInspection,
)
    requires
        tells_image(info, image),
        tells_inspected(response, image.reference@, inspection),
        inspection.digest@ == image.digest@,
        inspection.size == image.size,
    ensures
        info.digest@ == response.digest@,
        info.size == response.size,
        text::texts(info.tags@) == text::texts(response.tags@),
{
}

} // verus!
