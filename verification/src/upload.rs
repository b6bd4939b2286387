//! Upload service: the pure decisions of the upload pipeline.
//!
//! The storage, chunk assembly and probing happen at the process edge;
//! here live the rules — whether a requested upload is admissible under
//! the configuration, what coarse file kind a MIME type maps to, and the
//! storage prefix of each upload kind.

use vstd::prelude::*;

use crate::models::media::InitiateUploadRequest;
use crate::models::media::UploadConfig;
use crate::models::media::UploadType;
use crate::models::media::spec_lookup_mimes;
use crate::models::media::spec_lookup_size;

verus! {

/// Why an upload request is turned away.
#[derive(Clone, Copy, PartialEq, Eq, Structural, Debug)]
pub enum UploadError {
    /// The configuration has no entry for the upload kind.
    InvalidUploadType,
    /// The declared size is over the kind's cap.
    FileSizeExceeded,
    /// The declared MIME type is not allowed for the kind.
    MimeTypeNotAllowed,
}

/// The upload service, owning its configuration.
#[derive(Clone, PartialEq, Eq, Debug)]
pub struct UploadService {
    config: UploadConfig,
}

impl UploadService {
    pub fn new(config: UploadConfig) -> (r: Self)
        ensures
            r.spec_config() == config,
    {
        UploadService { config }
    }

    /// The configuration the service was built with.
    pub closed spec fn spec_config(&self) -> UploadConfig {
        self.config
    }

    /// Admit or refuse an upload request: the kind must be configured,
    /// the declared size within its cap, and the declared MIME type on
    /// its list — checked in that order, first failure reported.
    pub fn validate_upload(&self, request: &InitiateUploadRequest) -> (r: Result<
        (),
        UploadError,
    >)
        ensures
            r == match spec_lookup_size(self.spec_config().max_file_sizes@, request.upload_type) {
                None => Err::<(), UploadError>(UploadError::InvalidUploadType),
                Some(max) => if request.file_size > max {
                    Err::<(), UploadError>(UploadError::FileSizeExceeded)
                } else {
                    match spec_lookup_mimes(
                        self.spec_config().allowed_mime_types@,
                        request.upload_type,
                    ) {
                        None => Err::<(), UploadError>(UploadError::InvalidUploadType),
                        Some(list) => if exists|i: int|
                            0 <= i < list.len() && list[i] == request.mime_type@ {
                            Ok::<(), UploadError>(())
                        } else {
                            Err::<(), UploadError>(UploadError::MimeTypeNotAllowed)
                        },
                    }
                },
            },
    {
        let max = match self.config.max_size_for(&request.upload_type) {
            None => {
                return Err(UploadError::InvalidUploadType);
            }
            Some(max) => max,
        };
        if request.file_size > max {
            return Err(UploadError::FileSizeExceeded);
        }
        if self.config.mime_allowed(&request.upload_type, &request.mime_type) {
            Ok(())
        } else {
            if has_mime_list(&self.config, &request.upload_type) {
                Err(UploadError::MimeTypeNotAllowed)
            } else {
                Err(UploadError::InvalidUploadType)
            }
        }
    }

    /// Coarse kind of a file by its MIME type: `image`, `video`, `audio`
    /// or `unknown`.
    pub fn get_file_type(&self, mime_type: &str) -> (r: String)
        ensures
            r@ == spec_file_type(mime_type@),
    {
        if str_has_prefix(mime_type, "image/") {
            String::from_str("image")
        } else if str_has_prefix(mime_type, "video/") {
            String::from_str("video")
        } else if str_has_prefix(mime_type, "audio/") {
            String::from_str("audio")
        } else {
            String::from_str("unknown")
        }
    }
}

/// Does the configuration carry a MIME list for the kind at all?
fn has_mime_list(config: &UploadConfig, t: &UploadType) -> (r: bool)
    ensures
        r == (spec_lookup_mimes(config.allowed_mime_types@, *t) is Some),
{
    let n = config.allowed_mime_types.len();
    let mut i: usize = 0;
    proof {
        assert(config.allowed_mime_types@.subrange(0, n as int) =~= config.allowed_mime_types@);
    }
    while i < n
        invariant
            n == config.allowed_mime_types@.len(),
            0 <= i <= n,
            spec_lookup_mimes(config.allowed_mime_types@, *t) == spec_lookup_mimes(
                config.allowed_mime_types@.subrange(i as int, n as int),
                *t,
            ),
        decreases n - i,
    {
        let ghost tail = config.allowed_mime_types@.subrange(i as int, n as int);
        proof {
            assert(tail[0] == config.allowed_mime_types@[i as int]);
            assert(tail.subrange(1, tail.len() as int) =~= config.allowed_mime_types@.subrange(
                i + 1,
                n as int,
            ));
        }
        if crate::models::media::upload_type_eq(&config.allowed_mime_types[i].0, t) {
            return true;
        }
        i += 1;
    }
    proof {
        assert(config.allowed_mime_types@.subrange(n as int, n as int).len() == 0);
    }
    false
}

/// The coarse file kind of a MIME type, by its prefix.
pub open spec fn spec_file_type(s: Seq<char>) -> Seq<char> {
    if spec_has_prefix(s, "image/"@) {
        "image"@
    } else if spec_has_prefix(s, "video/"@) {
        "video"@
    } else if spec_has_prefix(s, "audio/"@) {
        "audio"@
    } else {
        "unknown"@
    }
}

/// `p` is a prefix of `s`.
pub open spec fn spec_has_prefix(s: Seq<char>, p: Seq<char>) -> bool {
    p.len() <= s.len() && s.take(p.len() as int) == p
}

/// Character-by-character prefix test.
pub fn str_has_prefix(s: &str, p: &str) -> (r: bool)
    ensures
        r == spec_has_prefix(s@, p@),
{
    let sl = s.unicode_len();
    let pl = p.unicode_len();
    if pl > sl {
        return false;
    }
    let mut i: usize = 0;
    while i < pl
        invariant
            sl == s@.len(),
            pl == p@.len(),
            pl <= sl,
            0 <= i <= pl,
            forall|j: int| 0 <= j < i ==> s@[j] == p@[j],
        decreases pl - i,
    {
        if s.get_char(i) != p.get_char(i) {
            proof {
                assert(s@[i as int] != p@[i as int]);
                assert(s@.take(pl as int)[i as int] == s@[i as int]);
            }
            return false;
        }
        i += 1;
    }
    proof {
        assert(s@.take(pl as int) =~= p@);
    }
    true
}

/// The storage name prefix of each upload kind.
pub fn upload_type_to_prefix(upload_type: &UploadType) -> (r: &'static str)
    ensures
        r@ == spec_upload_prefix(*upload_type),
{
    match upload_type {
        UploadType::Avatar => "avatar",
        UploadType::Banner => "banner",
        UploadType::PostImage => "post_img",
        UploadType::PostVideo => "post_vid",
        UploadType::CommentImage => "comment_img",
        UploadType::VoiceReply => "voice",
        UploadType::VideoReply => "video_reply",
    }
}

/// The storage name prefix, as a character view.
pub open spec fn spec_upload_prefix(t: UploadType) -> Seq<char> {
    match t {
        UploadType::Avatar => "avatar"@,
        UploadType::Banner => "banner"@,
        UploadType::PostImage => "post_img"@,
        UploadType::PostVideo => "post_vid"@,
        UploadType::CommentImage => "comment_img"@,
        UploadType::VoiceReply => "voice"@,
        UploadType::VideoReply => "video_reply"@,
    }
}

} // verus!
