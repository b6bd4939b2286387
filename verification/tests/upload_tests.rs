use fanout_core::models::media::InitiateUploadRequest;
use fanout_core::models::media::UploadConfig;
use fanout_core::models::media::UploadType;
use fanout_core::models::notification::should_send_notification;
use fanout_core::models::notification::DigestFrequency;
use fanout_core::models::notification::NotificationSettings;
use fanout_core::models::notification::NotificationType;
use fanout_core::models::vote::VoteRequest;
use fanout_core::upload::upload_type_to_prefix;
use fanout_core::upload::UploadError;
use fanout_core::upload::UploadService;

fn request(upload_type: UploadType, file_size: i64, mime: &str) -> InitiateUploadRequest {
    InitiateUploadRequest {
        filename: "f".to_string(),
        file_size,
        mime_type: mime.to_string(),
        upload_type,
        description: None,
    }
}

#[test]
fn default_config_basics() {
    let config = UploadConfig::default();
    assert_eq!(config.upload_dir, "./uploads".to_string());
    assert_eq!(config.chunk_size, 5242880);
    assert_eq!(config.session_timeout_minutes, 60);
    assert_eq!(config.max_file_sizes.len(), 7);
    assert_eq!(config.allowed_mime_types.len(), 7);
}

#[test]
fn default_config_size_caps() {
    let config = UploadConfig::default();
    assert_eq!(config.max_size_for(&UploadType::Avatar), Some(1048576));
    assert_eq!(config.max_size_for(&UploadType::Banner), Some(2097152));
    assert_eq!(config.max_size_for(&UploadType::PostImage), Some(10485760));
    assert_eq!(config.max_size_for(&UploadType::PostVideo), Some(104857600));
    assert_eq!(config.max_size_for(&UploadType::CommentImage), Some(5242880));
    assert_eq!(config.max_size_for(&UploadType::VoiceReply), Some(5242880));
    assert_eq!(config.max_size_for(&UploadType::VideoReply), Some(52428800));
}

#[test]
fn default_config_mime_lists() {
    let config = UploadConfig::default();
    assert!(config.mime_allowed(&UploadType::Avatar, &"image/png".to_string()));
    assert!(!config.mime_allowed(&UploadType::Avatar, &"image/gif".to_string()));
    assert!(config.mime_allowed(&UploadType::PostImage, &"image/gif".to_string()));
    assert!(config.mime_allowed(&UploadType::PostVideo, &"video/quicktime".to_string()));
    assert!(config.mime_allowed(&UploadType::VoiceReply, &"audio/ogg".to_string()));
    assert!(!config.mime_allowed(&UploadType::VideoReply, &"video/quicktime".to_string()));
}

#[test]
fn validate_accepts_within_limits() {
    let service = UploadService::new(UploadConfig::default());
    let ok = service.validate_upload(&request(UploadType::Avatar, 1048576, "image/jpeg"));
    assert_eq!(ok, Ok(()));
}

#[test]
fn validate_rejects_oversized_file() {
    let service = UploadService::new(UploadConfig::default());
    let r = service.validate_upload(&request(UploadType::Avatar, 1048577, "image/jpeg"));
    assert_eq!(r, Err(UploadError::FileSizeExceeded));
}

#[test]
fn validate_rejects_wrong_mime() {
    let service = UploadService::new(UploadConfig::default());
    let r = service.validate_upload(&request(UploadType::Avatar, 100, "video/mp4"));
    assert_eq!(r, Err(UploadError::MimeTypeNotAllowed));
}

#[test]
fn validate_rejects_unconfigured_type() {
    let empty = UploadConfig {
        max_file_sizes: Vec::new(),
        allowed_mime_types: Vec::new(),
        upload_dir: ".".to_string(),
        chunk_size: 1,
        session_timeout_minutes: 1,
    };
    let service = UploadService::new(empty);
    let r = service.validate_upload(&request(UploadType::Avatar, 1, "image/jpeg"));
    assert_eq!(r, Err(UploadError::InvalidUploadType));
}

#[test]
fn file_type_by_mime_prefix() {
    let service = UploadService::new(UploadConfig::default());
    assert_eq!(service.get_file_type("image/png"), "image".to_string());
    assert_eq!(service.get_file_type("video/mp4"), "video".to_string());
    assert_eq!(service.get_file_type("audio/ogg"), "audio".to_string());
    assert_eq!(service.get_file_type("text/plain"), "unknown".to_string());
    assert_eq!(service.get_file_type(""), "unknown".to_string());
    assert_eq!(service.get_file_type("image"), "unknown".to_string());
}

#[test]
fn storage_prefixes() {
    assert_eq!(upload_type_to_prefix(&UploadType::Avatar), "avatar");
    assert_eq!(upload_type_to_prefix(&UploadType::Banner), "banner");
    assert_eq!(upload_type_to_prefix(&UploadType::PostImage), "post_img");
    assert_eq!(upload_type_to_prefix(&UploadType::PostVideo), "post_vid");
    assert_eq!(upload_type_to_prefix(&UploadType::CommentImage), "comment_img");
    assert_eq!(upload_type_to_prefix(&UploadType::VoiceReply), "voice");
    assert_eq!(upload_type_to_prefix(&UploadType::VideoReply), "video_reply");
}

fn settings(all_on: bool) -> NotificationSettings {
    NotificationSettings {
        email_notifications: all_on,
        push_notifications: all_on,
        comment_reply_notifications: all_on,
        post_reply_notifications: all_on,
        mention_notifications: all_on,
        upvote_notifications: all_on,
        community_notifications: all_on,
        digest_frequency: DigestFrequency::Never,
    }
}

#[test]
fn notification_preferences_gate_their_kinds() {
    let off = settings(false);
    assert!(!should_send_notification(&off, &NotificationType::CommentReply));
    assert!(!should_send_notification(&off, &NotificationType::PostReply));
    assert!(!should_send_notification(&off, &NotificationType::Mention));
    assert!(!should_send_notification(&off, &NotificationType::Upvote));
    assert!(!should_send_notification(&off, &NotificationType::Downvote));
    assert!(!should_send_notification(&off, &NotificationType::CommunityInvite));
    assert!(!should_send_notification(&off, &NotificationType::CommunityBan));
    // Kinds without a toggle always go through.
    assert!(should_send_notification(&off, &NotificationType::SystemAnnouncement));
    assert!(should_send_notification(&off, &NotificationType::Follow));

    let on = settings(true);
    assert!(should_send_notification(&on, &NotificationType::CommentReply));
    assert!(should_send_notification(&on, &NotificationType::Upvote));
}

#[test]
fn vote_values_are_constrained() {
    assert!(VoteRequest { vote_type: -1 }.is_valid());
    assert!(VoteRequest { vote_type: 0 }.is_valid());
    assert!(VoteRequest { vote_type: 1 }.is_valid());
    assert!(!VoteRequest { vote_type: 2 }.is_valid());
    assert!(!VoteRequest { vote_type: -2 }.is_valid());
}
