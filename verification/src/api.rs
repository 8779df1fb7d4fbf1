//! The document service's payload shapes: what the transport sends and
//! receives.  The HTTP work itself stays in the application shell; the
//! shapes and the conversions on them are verified here.

use vstd::prelude::*;
use crate::config;

verus! {

/// The authenticated account as the server reports it.
pub struct User {
    pub id: i64,
    pub account: String,
    pub display_name: String,
}

impl User {
    /// The name to show for this account: the display name when one is
    /// set, the account name otherwise.
    pub fn display_name_or_account(&self) -> (r: &str)
        ensures
            r@ == if self.display_name@.len() > 0 {
                self.display_name@
            } else {
                self.account@
            },
    {
        if self.display_name.as_str().is_empty() {
            self.account.as_str()
        } else {
            self.display_name.as_str()
        }
    }
}

/// A token verification result.
pub struct VerifyResponse {
    pub user: User,
    pub expires_at: String,
}

/// A category as the lookup endpoints report it.
pub struct CategoryInfo {
    pub id: i64,
    pub uuid: String,
    pub name: String,
    pub path: String,
}

/// A downloaded document with its content.
pub struct DocumentContent {
    pub id: i64,
    pub uuid: String,
    pub title: String,
    pub description: Option<String>,
    pub content: Option<String>,
    pub doc_type: String,
    pub status: String,
    pub version: i64,
    pub priority: i64,
    pub is_required: bool,
    pub category: Option<CategoryInfo>,
}

/// An upload request: new content with an optional change summary.
pub struct DocumentUpdate {
    pub content: String,
    pub change_summary: Option<String>,
}

/// A creation request for a new remote document.
pub struct DocumentCreate {
    pub category_id: i64,
    pub title: String,
    pub content: String,
    pub description: Option<String>,
    pub doc_type: Option<String>,
    pub priority: Option<i64>,
    pub is_required: Option<bool>,
}

/// A category this project depends on, as the config endpoint lists it.
pub struct Dependency {
    pub category_id: i64,
    pub category_name: String,
    pub category_path: String,
    pub document_count: i64,
}

/// A feedback submission.
pub struct FeedbackRequest {
    pub target_type: String,
    pub target_uuids: Vec<String>,
    pub message: String,
}

/// The server's answer to a feedback submission.
pub struct FeedbackResponse {
    pub success: bool,
    pub recipients: Vec<Recipient>,
    pub message_count: usize,
}

/// One person the feedback was delivered to.
pub struct Recipient {
    pub user_id: i64,
    pub user_name: String,
    pub email: String,
    pub status: String,
}

/// A category tree node as the server sends it; unlike the manifest's
/// tree it carries the category uuid.
pub struct CategoryTree {
    pub id: i64,
    pub uuid: Option<String>,
    pub name: String,
    pub slug: Option<String>,
    pub path: String,
    pub description: Option<String>,
    pub position: i64,
    pub parent_id: Option<i64>,
    pub subcategories: Option<Vec<CategoryTree>>,
    pub document_count: i64,
    pub created_at: Option<String>,
    pub updated_at: Option<String>,
}

/// The manifest tree node that mirrors a server tree node: every field
/// carried over, the uuid dropped, and each subtree mirrored in order.
pub open spec fn tree_converted(a: CategoryTree, c: config::CategoryTree) -> bool
    decreases a,
{
    &&& c.id == a.id
    &&& c.name == a.name
    &&& c.slug == a.slug
    &&& c.path == a.path
    &&& c.description == a.description
    &&& c.position == a.position
    &&& c.parent_id == a.parent_id
    &&& c.document_count == a.document_count
    &&& c.created_at == a.created_at
    &&& c.updated_at == a.updated_at
    &&& match (a.subcategories, c.subcategories) {
        (Option::None, Option::None) => true,
        (Option::Some(asubs), Option::Some(csubs)) => asubs@.len() == csubs@.len()
            && (forall|i: int|
            0 <= i < asubs@.len() ==> tree_converted(asubs@[i], #[trigger] csubs@[i])),
        _ => false,
    }
}

/// Convert a server category tree into the manifest's tree shape.
pub fn convert_category_tree(api_tree: &CategoryTree) -> (r: config::CategoryTree)
    ensures
        tree_converted(*api_tree, r),
    decreases *api_tree,
{
    let subcategories: Option<Vec<config::CategoryTree>> = match &api_tree.subcategories {
        Some(subs) => {
            let mut out: Vec<config::CategoryTree> = Vec::new();
            let n = subs.len();
            let mut i: usize = 0;
            while i < n
                invariant
                    i <= n,
                    n == subs@.len(),
                    api_tree.subcategories is Some,
                    *subs == api_tree.subcategories->Some_0,
                    out@.len() == i,
                    forall|j: int| 0 <= j < i ==> tree_converted(subs@[j], #[trigger] out@[j]),
                decreases n - i,
            {
                proof {
                    let field = api_tree.subcategories;
                    assert(decreases_to!(*api_tree => field));
                    assert(decreases_to!(field => field->Some_0));
                    assert(decreases_to!(field->Some_0 => field->Some_0@));
                    assert(decreases_to!(field->Some_0@ => field->Some_0@[i as int]));
                    assert(decreases_to!(*api_tree => subs@[i as int]));
                }
                let converted = convert_category_tree(&subs[i]);
                out.push(converted);
                i += 1;
            }
            Some(out)
        },
        None => None,
    };
    config::CategoryTree {
        id: api_tree.id,
        name: api_tree.name.clone(),
        slug: clone_opt_string(&api_tree.slug),
        path: api_tree.path.clone(),
        description: clone_opt_string(&api_tree.description),
        position: api_tree.position,
        parent_id: api_tree.parent_id,
        subcategories,
        document_count: api_tree.document_count,
        created_at: clone_opt_string(&api_tree.created_at),
        updated_at: clone_opt_string(&api_tree.updated_at),
    }
}

fn clone_opt_string(o: &Option<String>) -> (r: Option<String>)
    ensures
        r == *o,
{
    match o {
        Some(s) => Some(s.clone()),
        None => None,
    }
}

} // verus!
