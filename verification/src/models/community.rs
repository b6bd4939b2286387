//! Community-side request and enumeration types.

use vstd::prelude::*;

verus! {

/// Who may view and post in a community.
#[derive(Clone, Copy, PartialEq, Eq, Structural, Debug)]
pub enum CommunityType {
    Public,
    Restricted,
    Private,
}

/// Moderation state of a community.
#[derive(Clone, Copy, PartialEq, Eq, Structural, Debug)]
pub enum CommunityStatus {
    Active,
    Quarantined,
    Banned,
}

/// A member's standing within a community.
#[derive(Clone, Copy, PartialEq, Eq, Structural, Debug)]
pub enum MembershipRole {
    Member,
    Moderator,
    Admin,
    Owner,
}

/// Creation of a new community.
#[derive(Clone, PartialEq, Eq, Debug)]
pub struct CreateCommunityRequest {
    pub name: String,
    pub display_name: String,
    pub description: Option<String>,
    pub community_type: CommunityType,
    pub is_nsfw: Option<bool>,
}

/// Partial update of a community's settings.
#[derive(Clone, PartialEq, Eq, Debug)]
pub struct UpdateCommunityRequest {
    pub display_name: Option<String>,
    pub description: Option<String>,
    pub rules: Option<String>,
    pub icon_url: Option<String>,
    pub banner_url: Option<String>,
    pub community_type: Option<CommunityType>,
    pub is_nsfw: Option<bool>,
}

/// Paging, ordering and filtering of a community listing.
#[derive(Clone, PartialEq, Eq, Debug)]
pub struct GetCommunitiesQuery {
    pub page: Option<u32>,
    pub limit: Option<u32>,
    pub sort: Option<String>,
    pub search: Option<String>,
}

/// Creation of a community rule.
#[derive(Clone, PartialEq, Eq, Debug)]
pub struct CreateRuleRequest {
    pub title: String,
    pub description: Option<String>,
    pub rule_order: i32,
}

/// Creation of a post flair.
#[derive(Clone, PartialEq, Eq, Debug)]
pub struct CreateFlairRequest {
    pub text: String,
    pub background_color: Option<String>,
    pub text_color: Option<String>,
    pub is_mod_only: Option<bool>,
}

/// Change of one member's role.
#[derive(Clone, Copy, PartialEq, Eq, Structural, Debug)]
pub struct UpdateMemberRoleRequest {
    pub role: MembershipRole,
}

} // verus!
