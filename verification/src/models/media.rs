//! Media upload types and the upload configuration.

use vstd::prelude::*;

verus! {

/// What an upload is for; each kind has its own size and type limits.
#[derive(Clone, Copy, PartialEq, Eq, Structural, Debug, Hash)]
pub enum UploadType {
    Avatar,
    Banner,
    PostImage,
    PostVideo,
    CommentImage,
    VoiceReply,
    VideoReply,
}

/// Lifecycle state of a media file.
#[derive(Clone, Copy, PartialEq, Eq, Structural, Debug)]
pub enum MediaStatus {
    Uploading,
    Processing,
    Completed,
    Failed,
    Deleted,
}

/// Opening request of a chunked upload.
#[derive(Clone, PartialEq, Eq, Debug)]
pub struct InitiateUploadRequest {
    pub filename: String,
    pub file_size: i64,
    pub mime_type: String,
    pub upload_type: UploadType,
    pub description: Option<String>,
}

/// Probe results for a stored media file.
#[derive(Clone, PartialEq, Eq, Debug)]
pub struct MediaMetadata {
    pub width: Option<i32>,
    pub height: Option<i32>,
    pub duration: Option<i32>,
    pub file_size: i64,
    pub mime_type: String,
}

/// Paging and filtering of a user's media listing.
#[derive(Clone, Copy, PartialEq, Eq, Structural, Debug)]
pub struct MediaQuery {
    pub limit: Option<u32>,
    pub offset: Option<u32>,
    pub upload_type: Option<UploadType>,
}

/// Per-kind limits and storage settings for uploads.
#[derive(Clone, PartialEq, Eq, Debug)]
pub struct UploadConfig {
    pub max_file_sizes: Vec<(UploadType, i64)>,
    pub allowed_mime_types: Vec<(UploadType, Vec<String>)>,
    pub upload_dir: String,
    pub chunk_size: usize,
    pub session_timeout_minutes: i64,
}

/// The stock size cap in bytes for each upload kind.
pub open spec fn spec_default_max_size(t: UploadType) -> i64 {
    match t {
        UploadType::Avatar => 1048576,
        UploadType::Banner => 2097152,
        UploadType::PostImage => 10485760,
        UploadType::PostVideo => 104857600,
        UploadType::CommentImage => 5242880,
        UploadType::VoiceReply => 5242880,
        UploadType::VideoReply => 52428800,
    }
}

/// The stock allowed MIME types for each upload kind.
pub open spec fn spec_default_mime_types(t: UploadType) -> Seq<Seq<char>> {
    match t {
        UploadType::Avatar => seq!["image/jpeg"@, "image/png"@, "image/webp"@],
        UploadType::Banner => seq!["image/jpeg"@, "image/png"@, "image/webp"@],
        UploadType::PostImage => seq![
            "image/jpeg"@,
            "image/png"@,
            "image/webp"@,
            "image/gif"@,
        ],
        UploadType::PostVideo => seq!["video/mp4"@, "video/webm"@, "video/quicktime"@],
        UploadType::CommentImage => seq![
            "image/jpeg"@,
            "image/png"@,
            "image/webp"@,
            "image/gif"@,
        ],
        UploadType::VoiceReply => seq![
            "audio/mpeg"@,
            "audio/wav"@,
            "audio/webm"@,
            "audio/ogg"@,
        ],
        UploadType::VideoReply => seq!["video/mp4"@, "video/webm"@],
    }
}

/// The order the stock tables list the upload kinds in.
pub open spec fn spec_default_type_order() -> Seq<UploadType> {
    seq![
        UploadType::Avatar,
        UploadType::Banner,
        UploadType::PostImage,
        UploadType::PostVideo,
        UploadType::CommentImage,
        UploadType::VoiceReply,
        UploadType::VideoReply,
    ]
}

/// First size entry for the kind, if the table has one.
pub open spec fn spec_lookup_size(s: Seq<(UploadType, i64)>, t: UploadType) -> Option<i64>
    decreases s.len(),
{
    if s.len() == 0 {
        None
    } else if s[0].0 == t {
        Some(s[0].1)
    } else {
        spec_lookup_size(s.subrange(1, s.len() as int), t)
    }
}

/// First MIME list for the kind, if the table has one, as char views.
pub open spec fn spec_lookup_mimes(
    s: Seq<(UploadType, Vec<String>)>,
    t: UploadType,
) -> Option<Seq<Seq<char>>>
    decreases s.len(),
{
    if s.len() == 0 {
        None
    } else if s[0].0 == t {
        Some(s[0].1@.map_values(|m: String| m@))
    } else {
        spec_lookup_mimes(s.subrange(1, s.len() as int), t)
    }
}

impl UploadConfig {
    /// Size cap for the kind per this configuration.
    pub fn max_size_for(&self, t: &UploadType) -> (r: Option<i64>)
        ensures
            r == spec_lookup_size(self.max_file_sizes@, *t),
    {
        let n = self.max_file_sizes.len();
        let mut i: usize = 0;
        proof {
            assert(self.max_file_sizes@.subrange(0, n as int) =~= self.max_file_sizes@);
        }
        while i < n
            invariant
                n == self.max_file_sizes@.len(),
                0 <= i <= n,
                spec_lookup_size(self.max_file_sizes@, *t) == spec_lookup_size(
                    self.max_file_sizes@.subrange(i as int, n as int),
                    *t,
                ),
            decreases n - i,
        {
            let ghost tail = self.max_file_sizes@.subrange(i as int, n as int);
            let pair = &self.max_file_sizes[i];
            if upload_type_eq(&pair.0, t) {
                proof {
                    assert(tail[0] == self.max_file_sizes@[i as int]);
                }
                return Some(pair.1);
            }
            proof {
                assert(tail[0] == self.max_file_sizes@[i as int]);
                assert(tail.subrange(1, tail.len() as int) =~= self.max_file_sizes@.subrange(
                    i + 1,
                    n as int,
                ));
            }
            i += 1;
        }
        proof {
            assert(self.max_file_sizes@.subrange(n as int, n as int).len() == 0);
        }
        None
    }

    /// Is the MIME type allowed for the kind per this configuration?
    /// `false` also when the kind has no MIME list at all.
    pub fn mime_allowed(&self, t: &UploadType, mime: &String) -> (r: bool)
        ensures
            r == match spec_lookup_mimes(self.allowed_mime_types@, *t) {
                Some(list) => exists|i: int| 0 <= i < list.len() && list[i] == mime@,
                None => false,
            },
    {
        let n = self.allowed_mime_types.len();
        let mut i: usize = 0;
        proof {
            assert(self.allowed_mime_types@.subrange(0, n as int) =~= self.allowed_mime_types@);
        }
        while i < n
            invariant
                n == self.allowed_mime_types@.len(),
                0 <= i <= n,
                spec_lookup_mimes(self.allowed_mime_types@, *t) == spec_lookup_mimes(
                    self.allowed_mime_types@.subrange(i as int, n as int),
                    *t,
                ),
            decreases n - i,
        {
            let ghost tail = self.allowed_mime_types@.subrange(i as int, n as int);
            proof {
                assert(tail[0] == self.allowed_mime_types@[i as int]);
                assert(tail.subrange(1, tail.len() as int) =~= self.allowed_mime_types@.subrange(
                    i + 1,
                    n as int,
                ));
            }
            if upload_type_eq(&self.allowed_mime_types[i].0, t) {
                let list = &self.allowed_mime_types[i].1;
                let ghost lview: Seq<Seq<char>> = list@.map_values(|s: String| s@);
                proof {
                    assert(spec_lookup_mimes(tail, *t) == Some(lview));
                }
                let m = list.len();
                let mut j: usize = 0;
                while j < m
                    invariant
                        m == list@.len(),
                        0 <= j <= m,
                        forall|k: int| 0 <= k < j ==> list@[k]@ != mime@,
                        spec_lookup_mimes(self.allowed_mime_types@, *t) == Some(lview),
                        lview == list@.map_values(|s: String| s@),
                    decreases m - j,
                {
                    if list[j].eq(mime) {
                        proof {
                            assert(lview[j as int] == mime@);
                            let l2 = spec_lookup_mimes(self.allowed_mime_types@, *t)->0;
                            assert(l2 == lview);
                            assert(l2[j as int] == mime@);
                            assert(exists|k: int| 0 <= k < l2.len() && l2[k] == mime@);
                        }
                        return true;
                    }
                    j += 1;
                }
                proof {
                    assert forall|k: int| 0 <= k < lview.len() implies lview[k] != mime@ by {
                        assert(lview[k] == list@[k]@);
                    }
                }
                return false;
            }
            i += 1;
        }
        proof {
            assert(self.allowed_mime_types@.subrange(n as int, n as int).len() == 0);
        }
        false
    }
}

impl Default for UploadConfig {
    /// The stock configuration: one size cap and one MIME list per
    /// upload kind, listed in the stock order, 5 MiB chunks, temporary
    /// files under `./uploads`, and hour-long upload sessions.
    fn default() -> (r: Self)
        ensures
            r.max_file_sizes@.map_values(|p: (UploadType, i64)| p.0) == spec_default_type_order(),
            forall|i: int|
                0 <= i < r.max_file_sizes@.len() ==> #[trigger] r.max_file_sizes@[i].1
                    == spec_default_max_size(r.max_file_sizes@[i].0),
            r.allowed_mime_types@.map_values(|p: (UploadType, Vec<String>)| p.0)
                == spec_default_type_order(),
            forall|i: int|
                0 <= i < r.allowed_mime_types@.len() ==> (#[trigger] r.allowed_mime_types@[
                    i
                ]).1@.map_values(|m: String| m@) == spec_default_mime_types(
                    r.allowed_mime_types@[i].0,
                ),
            r.upload_dir@ == "./uploads"@,
            r.chunk_size == 5242880,
            r.session_timeout_minutes == 60,
    {
        let mut max_file_sizes: Vec<(UploadType, i64)> = Vec::new();
        max_file_sizes.push((UploadType::Avatar, 1048576));
        max_file_sizes.push((UploadType::Banner, 2097152));
        max_file_sizes.push((UploadType::PostImage, 10485760));
        max_file_sizes.push((UploadType::PostVideo, 104857600));
        max_file_sizes.push((UploadType::CommentImage, 5242880));
        max_file_sizes.push((UploadType::VoiceReply, 5242880));
        max_file_sizes.push((UploadType::VideoReply, 52428800));

        let ghost f = |m: String| m@;

        let mut avatar: Vec<String> = Vec::new();
        avatar.push(String::from_str("image/jpeg"));
        avatar.push(String::from_str("image/png"));
        avatar.push(String::from_str("image/webp"));
        proof {
            assert(avatar@.map_values(f) =~= spec_default_mime_types(UploadType::Avatar));
        }

        let mut banner: Vec<String> = Vec::new();
        banner.push(String::from_str("image/jpeg"));
        banner.push(String::from_str("image/png"));
        banner.push(String::from_str("image/webp"));
        proof {
            assert(banner@.map_values(f) =~= spec_default_mime_types(UploadType::Banner));
        }

        let mut post_image: Vec<String> = Vec::new();
        post_image.push(String::from_str("image/jpeg"));
        post_image.push(String::from_str("image/png"));
        post_image.push(String::from_str("image/webp"));
        post_image.push(String::from_str("image/gif"));
        proof {
            assert(post_image@.map_values(f) =~= spec_default_mime_types(UploadType::PostImage));
        }

        let mut post_video: Vec<String> = Vec::new();
        post_video.push(String::from_str("video/mp4"));
        post_video.push(String::from_str("video/webm"));
        post_video.push(String::from_str("video/quicktime"));
        proof {
            assert(post_video@.map_values(f) =~= spec_default_mime_types(UploadType::PostVideo));
        }

        let mut comment_image: Vec<String> = Vec::new();
        comment_image.push(String::from_str("image/jpeg"));
        comment_image.push(String::from_str("image/png"));
        comment_image.push(String::from_str("image/webp"));
        comment_image.push(String::from_str("image/gif"));
        proof {
            assert(comment_image@.map_values(f) =~= spec_default_mime_types(
                UploadType::CommentImage,
            ));
        }

        let mut voice_reply: Vec<String> = Vec::new();
        voice_reply.push(String::from_str("audio/mpeg"));
        voice_reply.push(String::from_str("audio/wav"));
        voice_reply.push(String::from_str("audio/webm"));
        voice_reply.push(String::from_str("audio/ogg"));
        proof {
            assert(voice_reply@.map_values(f) =~= spec_default_mime_types(
                UploadType::VoiceReply,
            ));
        }

        let mut video_reply: Vec<String> = Vec::new();
        video_reply.push(String::from_str("video/mp4"));
        video_reply.push(String::from_str("video/webm"));
        proof {
            assert(video_reply@.map_values(f) =~= spec_default_mime_types(
                UploadType::VideoReply,
            ));
        }

        let mut allowed_mime_types: Vec<(UploadType, Vec<String>)> = Vec::new();
        allowed_mime_types.push((UploadType::Avatar, avatar));
        allowed_mime_types.push((UploadType::Banner, banner));
        allowed_mime_types.push((UploadType::PostImage, post_image));
        allowed_mime_types.push((UploadType::PostVideo, post_video));
        allowed_mime_types.push((UploadType::CommentImage, comment_image));
        allowed_mime_types.push((UploadType::VoiceReply, voice_reply));
        allowed_mime_types.push((UploadType::VideoReply, video_reply));

        let r = UploadConfig {
            max_file_sizes,
            allowed_mime_types,
            upload_dir: String::from_str("./uploads"),
            chunk_size: 5242880,
            session_timeout_minutes: 60,
        };
        proof {
            assert(r.max_file_sizes@.map_values(|p: (UploadType, i64)| p.0)
                =~= spec_default_type_order());
            assert forall|i: int|
                0 <= i < r.max_file_sizes@.len() implies #[trigger] r.max_file_sizes@[i].1
                == spec_default_max_size(r.max_file_sizes@[i].0) by {
                assert(r.max_file_sizes@.len() == 7);
            }
            assert(r.allowed_mime_types@.map_values(|p: (UploadType, Vec<String>)| p.0)
                =~= spec_default_type_order());
            assert forall|i: int|
                0 <= i < r.allowed_mime_types@.len() implies (#[trigger] r.allowed_mime_types@[
                i
            ]).1@.map_values(|m: String| m@) == spec_default_mime_types(
                r.allowed_mime_types@[i].0,
            ) by {
                assert(r.allowed_mime_types@.len() == 7);
                assert((|m: String| m@) == f);
            }
        }
        r
    }
}

/// Field-by-field equality of upload kinds.
pub fn upload_type_eq(a: &UploadType, b: &UploadType) -> (r: bool)
    ensures
        r == (*a == *b),
{
    match (a, b) {
        (UploadType::Avatar, UploadType::Avatar) => true,
        (UploadType::Banner, UploadType::Banner) => true,
        (UploadType::PostImage, UploadType::PostImage) => true,
        (UploadType::PostVideo, UploadType::PostVideo) => true,
        (UploadType::CommentImage, UploadType::CommentImage) => true,
        (UploadType::VoiceReply, UploadType::VoiceReply) => true,
        (UploadType::VideoReply, UploadType::VideoReply) => true,
        _ => false,
    }
}

} // verus!
