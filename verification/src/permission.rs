//! Permission records and the rule that resolves them.
//!
//! A role may carry a per-article permission; where one of its flags is
//! unset, the role's namespace-wide permission decides instead.

use vstd::prelude::*;

verus! {

/// A role's permissions on one article. An unset flag defers to the
/// namespace-wide permission.
#[derive(Debug)]
pub struct ArticlePermission {
    pub article_id: i32,
    pub role_id: i32,
    pub can_read: Option<bool>,
    pub can_edit: Option<bool>,
    pub can_rename: Option<bool>,
    pub can_delete: Option<bool>,
}

/// A role's permissions over a whole namespace.
#[derive(Debug)]
pub struct NamespacePermission {
    pub namespace_id: i32,
    pub role_id: i32,
    pub can_create: bool,
    pub can_read: bool,
    pub can_edit: bool,
    pub can_rename: bool,
    pub can_delete: bool,
    pub can_grant: bool,
}

/// Resolves one permission flag: the article-specific setting where there
/// is one, the namespace-wide setting otherwise.
pub fn effective_permission(specific: Option<bool>, namespace_wide: bool) -> (r: bool)
    ensures
        r == (match specific {
            Option::Some(v) => v,
            Option::None => namespace_wide,
        }),
{
    match specific {
        Some(v) => v,
        None => namespace_wide,
    }
}

} // verus!
