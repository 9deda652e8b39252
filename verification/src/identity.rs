//! Persisted client identity: a stable id that survives restarts, plus a
//! display name the controller may assign.
//!
//! The id is made once and read back on every later launch, so that a cue's
//! whitelist can anchor to it.

use vstd::prelude::*;

use crate::document;
use crate::document::{
    field, is_calm, parse_document, put, put_optional_text, read_optional_text, read_text,
    write_document, Entry, Node, Tree,
};
use crate::paths;
use crate::paths::join_path;
use crate::text::copy_option;

verus! {

/// Who a client is.
#[derive(Debug, PartialEq, Eq)]
pub struct Identity {
    pub client_id: String,
    /// Name the controller has explicitly assigned, if any. Overrides the
    /// configured name until reassigned.
    pub assigned_name: Option<String>,
}

/// The model of an [`Identity`].
#[verifier::ext_equal]
pub struct IdentityModel {
    pub client_id: Seq<char>,
    pub assigned_name: Option<Seq<char>>,
}

impl View for Identity {
    type V = IdentityModel;

    open spec fn view(&self) -> IdentityModel {
        IdentityModel {
            client_id: self.client_id@,
            assigned_name: self.assigned_name.deep_view(),
        }
    }
}

impl Default for Identity {
    fn default() -> (r: Self)
        ensures
            r@ == (IdentityModel { client_id: Seq::empty(), assigned_name: None }),
    {
        Identity { client_id: String::new(), assigned_name: None }
    }
}

impl Clone for Identity {
    fn clone(&self) -> (r: Self)
        ensures
            r@ == self@,
    {
        Identity {
            client_id: self.client_id.clone(),
            assigned_name: copy_option(&self.assigned_name),
        }
    }
}

/// Is `s` the text of a random UUID: lower-case hexadecimal digits in groups of
/// 8, 4, 4, 4 and 12 with hyphens between them, of version 4 and the standard
/// variant?
pub open spec fn random_uuid(s: Seq<char>) -> bool {
    &&& s.len() == 36
    &&& forall|i: int|
        0 <= i < 36 ==> if i == 8 || i == 13 || i == 18 || i == 23 {
            #[trigger] s[i] == '-'
        } else {
            lower_hex(s[i])
        }
    &&& s[14] == '4'
    &&& s[19] == '8' || s[19] == '9' || s[19] == 'a' || s[19] == 'b'
}

/// Is `c` a lower-case hexadecimal digit?
pub open spec fn lower_hex(c: char) -> bool {
    '0' <= c <= '9' || 'a' <= c <= 'f'
}

/// A new client id.
///
/// Calls `uuid::Uuid::new_v4` and writes the result out in its standard form.
/// The digits are random: nothing more is claimed of them.
#[verifier::external_body]
fn fresh_client_id() -> (r: String)
    ensures
        random_uuid(r@),
{
    uuid::Uuid::new_v4().to_string()
}

/// The identity that a document holds.
pub open spec fn identity_in(t: Tree) -> Option<IdentityModel> {
    let id = document::field_of(t, "client_id"@, 0);
    let name = document::field_of(t, "assigned_name"@, 1);
    if document::is_text(id) && document::is_text_or_absent(name) {
        Some(
            IdentityModel {
                client_id: document::text_in(id),
                assigned_name: document::some_text_in(name),
            },
        )
    } else {
        None
    }
}

/// The identity that a stored document gives, if it can be read and its id is
/// not empty.
pub open spec fn stored(parsed: Result<Tree, Seq<char>>) -> Option<IdentityModel> {
    match parsed {
        Ok(t) => match identity_in(t) {
            Some(identity) if identity.client_id.len() > 0 => Some(identity),
            _ => None,
        },
        Err(_) => None,
    }
}

/// The identity that a stored document gives, if it can be read and its id is
/// not empty.
pub fn read_identity(parsed: &Result<Node, String>) -> (r: Option<Identity>)
    ensures
        match r {
            Some(identity) => stored(document::outcome(*parsed)) == Some(identity@),
            None => stored(document::outcome(*parsed)) is None,
        },
{
    let n: &Node = match parsed {
        Ok(n) => n,
        Err(_) => {
            return None;
        },
    };
    match (read_text(field(n, "client_id", 0)), read_optional_text(field(n, "assigned_name", 1))) {
        (Some(client_id), Some(assigned_name)) => if client_id.as_str().is_empty() {
            None
        } else {
            Some(Identity { client_id, assigned_name })
        },
        _ => None,
    }
}

/// An identity, and whether it is new and has to be saved.
pub struct Loaded {
    pub identity: Identity,
    pub is_new: bool,
}

/// The stored identity, or else a new one of the given id and no name.
pub open spec fn identity_or(stored: Option<IdentityModel>, fresh_id: Seq<char>) -> IdentityModel {
    match stored {
        Some(identity) => identity,
        None => IdentityModel { client_id: fresh_id, assigned_name: None },
    }
}

/// The stored identity, or else a new one of the given id and no name.
pub fn adopt(found: Option<Identity>, fresh_id: String) -> (r: Loaded)
    ensures
        r.is_new == (found is None),
        r.identity@ == identity_or(
            match found {
                Some(identity) => Some(identity@),
                None => None,
            },
            fresh_id@,
        ),
{
    match found {
        Some(identity) => Loaded { identity, is_new: false },
        None => Loaded {
            identity: Identity { client_id: fresh_id, assigned_name: None },
            is_new: true,
        },
    }
}

/// What a stored identity file gives; one that is missing or unreadable gives
/// nothing.
pub open spec fn stored_in(raw: Option<Seq<char>>) -> Option<IdentityModel> {
    match raw {
        Some(s) => stored(document::parsed_toml(s)),
        None => None,
    }
}

/// Load the identity from the contents of its file, or make a fresh one (new
/// random id, no assigned name) if the file is missing, unreadable or corrupt.
/// A bad identity file just means a new persistent id.
pub fn load_or_create(raw: Option<&str>) -> (r: Loaded)
    ensures
        match stored_in(text_of(raw)) {
            Some(identity) => !r.is_new && r.identity@ == identity,
            None => {
                &&& r.is_new
                &&& random_uuid(r.identity@.client_id)
                &&& r.identity@.assigned_name is None
            },
        },
        r.identity@.client_id.len() > 0,
{
    let found: Option<Identity> = match raw {
        Some(s) => read_identity(&parse_document(s)),
        None => None,
    };
    match found {
        Some(identity) => Loaded { identity, is_new: false },
        None => adopt(None, fresh_client_id()),
    }
}

/// The characters of a text that may be absent.
pub open spec fn text_of(raw: Option<&str>) -> Option<Seq<char>> {
    match raw {
        Some(s) => Some(s@),
        None => None,
    }
}

/// An identity as a tree.
pub open spec fn identity_tree(identity: IdentityModel) -> Tree {
    Tree::Table(
        document::with_text(
            Map::empty().insert("client_id"@, Tree::Text(identity.client_id)),
            "assigned_name"@,
            identity.assigned_name,
        ),
    )
}

fn identity_document(identity: &Identity) -> (r: Node)
    ensures
        r@ == identity_tree(identity@),
        document::spelled(r),
{
    let mut entries: Vec<Entry> = Vec::new();
    put(&mut entries, "client_id", Node::Text(identity.client_id.clone()));
    put_optional_text(&mut entries, "assigned_name", &identity.assigned_name);
    Node::Table(entries)
}

/// An identity reads back from its own tree.
pub proof fn law_identity_reads_back(identity: IdentityModel)
    ensures
        identity_in(identity_tree(identity)) == Some(identity),
{
    reveal_strlit("client_id");
    reveal_strlit("assigned_name");
    assert("client_id"@.len() == 9);
    assert("assigned_name"@.len() == 13);
}

proof fn lemma_identity_written(identity: IdentityModel)
    ensures
        document::tame(identity_tree(identity), 16),
        document::displayed(identity_tree(identity), identity_tree(identity)),
{
    reveal_strlit("client_id");
    reveal_strlit("assigned_name");
    reveal_strlit("$__toml_private_datetime");
    assert("client_id"@.len() == 9);
    assert("assigned_name"@.len() == 13);
    assert("$__toml_private_datetime"@.len() == 24);
    let m = identity_tree(identity)->Table_0;
    assert forall|k: Seq<char>| #[trigger] m.dom().contains(k) implies k != document::date_key()
        && document::tame(m[k], 15) && document::displayed(m[k], m[k]) by {}
}

impl Identity {
    /// The identity as the text of its file. Reading the text gives it back; an
    /// identity whose id is empty is then not taken up.
    pub fn to_toml(&self) -> (r: Result<String, String>)
        requires
            document::calm(identity_tree(self@)),
        ensures
            r is Ok,
            document::parsed_toml(r->Ok_0@) == Ok::<Tree, Seq<char>>(identity_tree(self@)),
            self@.client_id.len() > 0 ==> stored(document::parsed_toml(r->Ok_0@)) == Some(self@),
    {
        proof {
            lemma_identity_written(self@);
            law_identity_reads_back(self@);
        }
        match write_document(identity_document(self)) {
            Ok(s) => {
                proof {
                    document::lemma_displayed_once(
                        identity_tree(self@),
                        document::parsed_toml(s@)->Ok_0,
                        identity_tree(self@),
                    );
                }
                Ok(s)
            },
            Err(e) => Err(e),
        }
    }

    /// Can the identity be written: is there no text in it with 256 quotation
    /// marks in a row?
    pub fn can_write(&self) -> (r: bool)
        ensures
            r == document::calm(identity_tree(self@)),
    {
        is_calm(&identity_document(self))
    }
}

/// Where the identity is kept: at the configured path if there is one, else in
/// the configuration directory, else in the home directory, else here.
pub open spec fn identity_path(
    configured: Option<Seq<char>>,
    config_dir: Option<Seq<char>>,
    home_dir: Option<Seq<char>>,
) -> Seq<char> {
    match (configured, config_dir) {
        (Some(p), _) => p,
        (None, Some(d)) => paths::joined(paths::joined(d, "multiplex-client"@), "identity.toml"@),
        (None, None) => paths::joined(
            paths::joined(
                match home_dir {
                    Some(h) => h,
                    None => "."@,
                },
                ".multiplex_client"@,
            ),
            "identity.toml"@,
        ),
    }
}

/// Where the identity is kept. The configured path matters for running several
/// clients on one machine: each needs an identity of its own.
pub fn default_path(
    configured: &Option<String>,
    config_dir: &Option<String>,
    home_dir: &Option<String>,
) -> (r: String)
    ensures
        r@ == identity_path(configured.deep_view(), config_dir.deep_view(), home_dir.deep_view()),
{
    if let Some(p) = configured {
        return p.clone();
    }
    let dir: String = match config_dir {
        Some(d) => join_path(d.as_str(), "multiplex-client"),
        None => join_path(
            match home_dir {
                Some(h) => h.as_str(),
                None => ".",
            },
            ".multiplex_client",
        ),
    };
    join_path(dir.as_str(), "identity.toml")
}

/// Which identity a document holds, by its keys: the id must be there, the name
/// need not be.
pub proof fn law_identity_of_a_table(m: Map<Seq<char>, Tree>, c: IdentityModel)
    ensures
        identity_in(Tree::Table(m)) == Some(c) <==> {
            &&& m.dom().contains("client_id"@) && m["client_id"@] == Tree::Text(c.client_id)
            &&& match c.assigned_name {
                Some(s) => m.dom().contains("assigned_name"@) && m["assigned_name"@] == Tree::Text(s),
                None => !m.dom().contains("assigned_name"@),
            }
        },
{
    let read = identity_in(Tree::Table(m));
    if read is Some && read->0.client_id == c.client_id && read->0.assigned_name
        == c.assigned_name {
        assert(read->0 =~= c);
    }
}

/// A stored identity is taken up exactly where its document can be read and its
/// id is not empty, and then as it is; otherwise the client gets the fresh id and
/// no name.
pub proof fn law_stored_identity_is_kept(
    parsed: Result<Tree, Seq<char>>,
    fresh_id: Seq<char>,
)
    ensures
        ({
            let kept = identity_or(stored(parsed), fresh_id);
            let usable = parsed is Ok && identity_in(parsed->Ok_0) is Some && identity_in(
                parsed->Ok_0,
            )->0.client_id.len() > 0;
            &&& usable ==> Some(kept) == identity_in(parsed->Ok_0)
            &&& !usable ==> kept.client_id == fresh_id && kept.assigned_name is None
        }),
{
}

/// The identity is kept at the configured path, whatever else is known. Without
/// one it is kept in `identity.toml`, in the client's own directory under the
/// configuration directory, or else under the home directory, or else here.
pub proof fn law_where_the_identity_is(
    path: Seq<char>,
    config: Seq<char>,
    home: Seq<char>,
    config_dir: Option<Seq<char>>,
    home_dir: Option<Seq<char>>,
)
    ensures
        identity_path(Some(path), config_dir, home_dir) == path,
        identity_path(None, Some(config), home_dir) == paths::joined(
            paths::joined(config, "multiplex-client"@),
            "identity.toml"@,
        ),
        identity_path(None, None, Some(home)) == paths::joined(
            paths::joined(home, ".multiplex_client"@),
            "identity.toml"@,
        ),
        identity_path(None, None, None) == identity_path(None, None, Some("."@)),
{
}

/// A list reads as the identity that a table reads as that holds its items, in
/// order, under the same keys.
pub proof fn law_identity_of_a_list(items: Seq<Tree>, m: Map<Seq<char>, Tree>)
    requires
        ({
            let keys = seq!["client_id"@, "assigned_name"@];
            forall|k: int|
                0 <= k < keys.len() ==> (m.dom().contains(#[trigger] keys[k]) <==> k < items.len())
                    && (k < items.len() ==> m[keys[k]] == items[k])
        }),
    ensures
        identity_in(Tree::List(items)) == identity_in(Tree::Table(m)),
{
    let keys = seq!["client_id"@, "assigned_name"@];
    assert(keys[0] == "client_id"@);
    assert(keys[1] == "assigned_name"@);
}

} // verus!
