//! TOML documents, held as trees.
//!
//! The `toml` crate reads and writes the text, into values of the `serde_json`
//! crate or its own; this module turns values into trees, from which the rest of
//! the library reads fields, and back.

use vstd::prelude::*;

use crate::text;

verus! {

/// A value of a TOML document.
#[derive(Debug)]
pub enum Node {
    Text(String),
    Integer(i64),
    /// A floating-point number, in decimal.
    Float(String),
    Flag(bool),
    /// A date, a time, or both, where a document could not be read plainly.
    Moment(String),
    List(Vec<Node>),
    Table(Vec<Entry>),
}

/// A key of a table and its value.
#[derive(Debug)]
pub struct Entry {
    pub key: String,
    pub value: Node,
}

/// The model of a [`Node`]. The order in which a table names its keys carries
/// no meaning, so a table is a map.
#[verifier::ext_equal]
pub enum Tree {
    Text(Seq<char>),
    Integer(i64),
    Float(Seq<char>),
    Flag(bool),
    Moment(Seq<char>),
    List(Seq<Tree>),
    Table(Map<Seq<char>, Tree>),
}

/// The tree of a node.
pub open spec fn tree_of(n: Node) -> Tree
    decreases n,
{
    match n {
        Node::Text(s) => Tree::Text(s@),
        Node::Integer(i) => Tree::Integer(i),
        Node::Float(s) => Tree::Float(s@),
        Node::Flag(b) => Tree::Flag(b),
        Node::Moment(s) => Tree::Moment(s@),
        Node::List(items) => Tree::List(list_of(items@)),
        Node::Table(entries) => Tree::Table(table_of(entries@)),
    }
}

/// The trees of a list of nodes.
pub open spec fn list_of(items: Seq<Node>) -> Seq<Tree>
    decreases items,
{
    if items.len() == 0 {
        Seq::empty()
    } else {
        list_of(items.drop_last()).push(tree_of(items.last()))
    }
}

/// The map of a list of entries; a key that is named twice has its last value.
pub open spec fn table_of(entries: Seq<Entry>) -> Map<Seq<char>, Tree>
    decreases entries,
{
    if entries.len() == 0 {
        Map::empty()
    } else {
        table_of(entries.drop_last()).insert(entries.last().key@, tree_of(entries.last().value))
    }
}

impl View for Node {
    type V = Tree;

    open spec fn view(&self) -> Tree {
        tree_of(*self)
    }
}

/// The form in which the standard library displays the floating-point number
/// that it reads from a text, or `None` for a text that spells no number.
pub uninterp spec fn float_form(s: Seq<char>) -> Option<Seq<char>>;

/// Is `u` the tree `t` with each floating-point number in the form in which it
/// is displayed? A date has no such form.
pub open spec fn displayed(t: Tree, u: Tree) -> bool
    decreases t,
{
    match (t, u) {
        (Tree::Text(a), Tree::Text(b)) => a == b,
        (Tree::Integer(a), Tree::Integer(b)) => a == b,
        (Tree::Float(a), Tree::Float(b)) => float_form(a) == Some(b),
        (Tree::Flag(a), Tree::Flag(b)) => a == b,
        (Tree::List(a), Tree::List(b)) => a.len() == b.len() && forall|i: int|
            0 <= i < a.len() ==> displayed(#[trigger] a[i], b[i]),
        (Tree::Table(a), Tree::Table(b)) => a.dom() == b.dom() && forall|k: Seq<char>|
            #[trigger] a.dom().contains(k) ==> displayed(a[k], b[k]),
        _ => false,
    }
}

/// A value of the `toml` crate.
#[verifier::external_type_specification]
#[verifier::external_body]
pub struct ExTomlValue(toml::Value);

/// What a value of the `toml` crate holds, each floating-point number in the
/// form in which it is displayed.
pub uninterp spec fn value_tree(v: toml::Value) -> Tree;

/// A value of the `serde_json` crate.
#[verifier::external_type_specification]
#[verifier::external_body]
pub struct ExJsonValue(serde_json::Value);

/// What a value of the `serde_json` crate holds, each floating-point number in
/// the form in which it is displayed; `None` if there is a null in it.
pub uninterp spec fn plain_tree(v: serde_json::Value) -> Option<Tree>;

/// What `toml::from_str` makes of a text when it is to give a value of the
/// `serde_json` crate: what the value holds, or the complaint.
pub uninterp spec fn read_plainly(raw: Seq<char>) -> Result<Option<Tree>, Seq<char>>;

/// What `toml::from_str` makes of a text when it is to give a `toml::Value`: the
/// document's tree, or the complaint.
pub uninterp spec fn read_as_value(raw: Seq<char>) -> Result<Tree, Seq<char>>;

/// The tree of a TOML document, or the complaint about a text that is none.
///
/// Read plainly, every key of a table is kept, and a date is a table of one
/// private key. Numbers that are not finite have no plain form; a document with
/// one of them is read as a `toml::Value` instead.
pub open spec fn parsed_toml(raw: Seq<char>) -> Result<Tree, Seq<char>> {
    match read_plainly(raw) {
        Ok(Some(t)) => Ok(t),
        Ok(None) => read_as_value(raw),
        Err(e) => Err(e),
    }
}

/// Read a TOML document plainly.
///
/// Calls `toml::from_str` for a `serde_json::Value`. Its outcome is a function of
/// the text alone, and is given the name [`read_plainly`].
#[verifier::external_body]
fn parse_plainly(raw: &str) -> (r: Result<serde_json::Value, String>)
    ensures
        match r {
            Ok(v) => read_plainly(raw@) == Ok::<Option<Tree>, Seq<char>>(plain_tree(v)),
            Err(e) => read_plainly(raw@) == Err::<Option<Tree>, Seq<char>>(e@),
        },
{
    toml::from_str::<serde_json::Value>(raw).map_err(|e| e.to_string())
}

/// Take a value of the `serde_json` crate apart.
///
/// Each variant of `serde_json::Value` becomes the node of the same kind; a null
/// has none. The tree of the node is given the name [`plain_tree`].
#[verifier::external_body]
fn plain_node_of(v: serde_json::Value) -> (r: Option<Node>)
    ensures
        match r {
            Some(n) => plain_tree(v) == Some(n@),
            None => plain_tree(v) is None,
        },
{
    Some(match v {
        serde_json::Value::Null => return None,
        serde_json::Value::Bool(b) => Node::Flag(b),
        serde_json::Value::Number(x) if x.is_i64() => Node::Integer(x.as_i64()?),
        serde_json::Value::Number(x) => Node::Float(x.as_f64()?.to_string()),
        serde_json::Value::String(s) => Node::Text(s),
        serde_json::Value::Array(a) => Node::List(
            a.into_iter().map(plain_node_of).collect::<Option<_>>()?,
        ),
        serde_json::Value::Object(t) => Node::Table(
            t.into_iter()
                .map(|(key, v)| Some(Entry { key, value: plain_node_of(v)? }))
                .collect::<Option<_>>()?,
        ),
    })
}

/// Read a TOML document as a `toml::Value`.
///
/// Calls `toml::from_str`. Its outcome is a function of the text alone, and is
/// given the name [`read_as_value`].
#[verifier::external_body]
fn parse_value(raw: &str) -> (r: Result<toml::Value, String>)
    ensures
        match r {
            Ok(v) => read_as_value(raw@) == Ok::<Tree, Seq<char>>(value_tree(v)),
            Err(e) => read_as_value(raw@) == Err::<Tree, Seq<char>>(e@),
        },
{
    toml::from_str::<toml::Value>(raw).map_err(|e| e.to_string())
}

/// Take a value of the `toml` crate apart.
///
/// Each variant of `toml::Value` becomes the node of the same kind. The tree of
/// the node is given the name [`value_tree`].
#[verifier::external_body]
fn node_of(v: toml::Value) -> (r: Node)
    ensures
        r@ == value_tree(v),
{
    match v {
        toml::Value::String(s) => Node::Text(s),
        toml::Value::Integer(i) => Node::Integer(i),
        toml::Value::Float(x) => Node::Float(x.to_string()),
        toml::Value::Boolean(b) => Node::Flag(b),
        toml::Value::Datetime(d) => Node::Moment(d.to_string()),
        toml::Value::Array(a) => Node::List(a.into_iter().map(node_of).collect()),
        toml::Value::Table(t) => Node::Table(
            t.into_iter().map(|(key, v)| Entry { key, value: node_of(v) }).collect(),
        ),
    }
}

/// The model of the outcome of reading a document.
pub open spec fn outcome(parsed: Result<Node, String>) -> Result<Tree, Seq<char>> {
    match parsed {
        Ok(n) => Ok(n@),
        Err(e) => Err(e@),
    }
}

/// Read a TOML document into a tree.
pub fn parse_document(raw: &str) -> (r: Result<Node, String>)
    ensures
        outcome(r) == parsed_toml(raw@),
{
    let plain: serde_json::Value = match parse_plainly(raw) {
        Ok(v) => v,
        Err(e) => {
            return Err(e);
        },
    };
    match plain_node_of(plain) {
        Some(n) => Ok(n),
        None => match parse_value(raw) {
            Ok(v) => Ok(node_of(v)),
            Err(e) => Err(e),
        },
    }
}

/// Does each floating-point number in the node spell one, and is there no date
/// in it?
pub open spec fn spelled(n: Node) -> bool
    decreases n,
{
    match n {
        Node::Float(s) => float_form(s@) is Some,
        Node::Moment(_) => false,
        Node::List(items) => forall|i: int|
            0 <= i < items@.len() ==> spelled(#[trigger] items@[i]),
        Node::Table(entries) => forall|i: int|
            0 <= i < entries@.len() ==> spelled((#[trigger] entries@[i]).value),
        _ => true,
    }
}

/// Make a value of the `toml` crate out of a node.
///
/// Each node becomes the `toml::Value` variant of the same kind. A
/// floating-point number goes through the standard library's `parse`, which
/// refuses a text that spells no number; a date is refused.
#[verifier::external_body]
fn value_of(n: Node) -> (r: Option<toml::Value>)
    ensures
        match r {
            Some(v) => spelled(n) && displayed(n@, value_tree(v)),
            None => !spelled(n),
        },
        n matches Node::Float(s) ==> (r is Some <==> float_form(s@) is Some),
{
    Some(match n {
        Node::Text(s) => toml::Value::String(s),
        Node::Integer(i) => toml::Value::Integer(i),
        Node::Float(s) => toml::Value::Float(s.parse().ok()?),
        Node::Flag(b) => toml::Value::Boolean(b),
        Node::Moment(_) => return None,
        Node::List(v) => toml::Value::Array(v.into_iter().map(value_of).collect::<Option<_>>()?),
        Node::Table(t) => toml::Value::Table(
            t.into_iter()
                .map(|e| Some((e.key, value_of(e.value)?)))
                .collect::<Option<_>>()?,
        ),
    })
}

/// Do 256 quotation marks of one kind stand in a row in the text?
pub open spec fn quote_heavy(s: Seq<char>) -> bool {
    exists|i: int| 0 <= i && i + 256 <= s.len() && #[trigger] quote_run(s, i)
}

/// Are the 256 characters from `i` on all the same quotation mark?
pub open spec fn quote_run(s: Seq<char>, i: int) -> bool {
    ||| forall|k: int| i <= k < i + 256 ==> #[trigger] s[k] == '"'
    ||| forall|k: int| i <= k < i + 256 ==> #[trigger] s[k] == '\''
}

/// Does no text in the tree hold 256 quotation marks in a row?
pub open spec fn calm(t: Tree) -> bool
    decreases t,
{
    match t {
        Tree::Text(s) => !quote_heavy(s),
        Tree::List(items) => forall|i: int| 0 <= i < items.len() ==> calm(#[trigger] items[i]),
        Tree::Table(m) => forall|k: Seq<char>| #[trigger] m.dom().contains(k) ==> calm(m[k]),
        _ => true,
    }
}

/// Is there no date in the tree?
pub open spec fn dateless(t: Tree) -> bool
    decreases t,
{
    match t {
        Tree::Moment(_) => false,
        Tree::List(items) => forall|i: int| 0 <= i < items.len() ==> dateless(#[trigger] items[i]),
        Tree::Table(m) => forall|k: Seq<char>| #[trigger] m.dom().contains(k) ==> dateless(m[k]),
        _ => true,
    }
}

/// Is there no floating-point number in the tree?
pub open spec fn floatless(t: Tree) -> bool
    decreases t,
{
    match t {
        Tree::Float(_) => false,
        Tree::List(items) => forall|i: int| 0 <= i < items.len() ==> floatless(#[trigger] items[i]),
        Tree::Table(m) => forall|k: Seq<char>| #[trigger] m.dom().contains(k) ==> floatless(m[k]),
        _ => true,
    }
}

/// Is the tree nested at most `depth` levels deep?
pub open spec fn shallow(t: Tree, depth: nat) -> bool
    decreases depth,
{
    match t {
        Tree::List(items) => depth > 0 && forall|i: int|
            0 <= i < items.len() ==> shallow(#[trigger] items[i], (depth - 1) as nat),
        Tree::Table(m) => depth > 0 && forall|k: Seq<char>| #[trigger]
            m.dom().contains(k) ==> shallow(m[k], (depth - 1) as nat),
        _ => true,
    }
}

/// The key by which the `toml` crate tells a date from a table.
pub open spec fn date_key() -> Seq<char> {
    "$__toml_private_datetime"@
}

/// Is the tree nested at most `depth` levels deep, with no date in it and no
/// table that would be taken for one?
pub open spec fn tame(t: Tree, depth: nat) -> bool
    decreases depth,
{
    match t {
        Tree::Moment(_) => false,
        Tree::List(items) => depth > 0 && forall|i: int|
            0 <= i < items.len() ==> tame(#[trigger] items[i], (depth - 1) as nat),
        Tree::Table(m) => depth > 0 && forall|k: Seq<char>| #[trigger]
            m.dom().contains(k) ==> k != date_key() && tame(m[k], (depth - 1) as nat),
        _ => true,
    }
}

/// Write a TOML document.
///
/// Calls `toml::to_string_pretty`, which writes tables and nothing else. What it
/// wrote, `toml::from_str` reads back as the same tree, as long as the tree is
/// not nested so deep that reading stops (at 80 levels). Only a floating-point
/// number can keep it from having a plain form; read as a `toml::Value`, it must
/// hold no table that is taken for a date. How the text is laid out is left
/// unsaid. A text
/// with a row of 256 quotation marks overflows a counter of the crate's, and a
/// date that is none on any calendar is refused; neither is handed in.
#[verifier::external_body]
fn print_value(v: &toml::Value) -> (r: Result<String, String>)
    requires
        calm(value_tree(*v)),
        dateless(value_tree(*v)),
    ensures
        match r {
            Ok(s) => {
                &&& value_tree(*v) is Table
                &&& shallow(value_tree(*v), 16) ==> match read_plainly(s@) {
                    Ok(Some(t)) => t == value_tree(*v),
                    Ok(None) => {
                        &&& !floatless(value_tree(*v))
                        &&& tame(value_tree(*v), 16) ==> read_as_value(s@) == Ok::<
                            Tree,
                            Seq<char>,
                        >(value_tree(*v))
                    },
                    Err(_) => false,
                }
            },
            Err(_) => !(value_tree(*v) is Table),
        },
{
    toml::to_string_pretty(v).map_err(|e| e.to_string())
}

proof fn lemma_displayed_calm(t: Tree, u: Tree)
    requires
        displayed(t, u),
        calm(t),
    ensures
        calm(u),
    decreases t,
{
    match (t, u) {
        (Tree::List(a), Tree::List(b)) => {
            assert forall|i: int| 0 <= i < b.len() implies calm(#[trigger] b[i]) by {
                assert(displayed(a[i], b[i]));
                assert(calm(a[i]));
                lemma_displayed_calm(a[i], b[i]);
            }
        },
        (Tree::Table(a), Tree::Table(b)) => {
            assert forall|k: Seq<char>| #[trigger] b.dom().contains(k) implies calm(b[k]) by {
                assert(a.dom().contains(k));
                lemma_displayed_calm(a[k], b[k]);
            }
        },
        _ => {},
    }
}

proof fn lemma_displayed_dateless(t: Tree, u: Tree)
    requires
        displayed(t, u),
    ensures
        dateless(u),
    decreases t,
{
    match (t, u) {
        (Tree::List(a), Tree::List(b)) => {
            assert forall|i: int| 0 <= i < b.len() implies dateless(#[trigger] b[i]) by {
                assert(displayed(a[i], b[i]));
                lemma_displayed_dateless(a[i], b[i]);
            }
        },
        (Tree::Table(a), Tree::Table(b)) => {
            assert forall|k: Seq<char>| #[trigger] b.dom().contains(k) implies dateless(b[k]) by {
                assert(a.dom().contains(k));
                lemma_displayed_dateless(a[k], b[k]);
            }
        },
        _ => {},
    }
}

proof fn lemma_displayed_tame(t: Tree, u: Tree, depth: nat)
    requires
        displayed(t, u),
        tame(t, depth),
    ensures
        tame(u, depth),
    decreases depth,
{
    match (t, u) {
        (Tree::List(a), Tree::List(b)) => {
            assert forall|i: int| 0 <= i < b.len() implies tame(
                #[trigger] b[i],
                (depth - 1) as nat,
            ) by {
                assert(displayed(a[i], b[i]));
                assert(tame(a[i], (depth - 1) as nat));
                lemma_displayed_tame(a[i], b[i], (depth - 1) as nat);
            }
        },
        (Tree::Table(a), Tree::Table(b)) => {
            assert forall|k: Seq<char>| #[trigger] b.dom().contains(k) implies k != date_key()
                && tame(b[k], (depth - 1) as nat) by {
                assert(a.dom().contains(k));
                lemma_displayed_tame(a[k], b[k], (depth - 1) as nat);
            }
        },
        _ => {},
    }
}

proof fn lemma_tame_shallow(t: Tree, depth: nat)
    requires
        tame(t, depth),
    ensures
        shallow(t, depth),
    decreases depth,
{
    match t {
        Tree::List(items) => {
            assert forall|i: int| 0 <= i < items.len() implies shallow(
                #[trigger] items[i],
                (depth - 1) as nat,
            ) by {
                assert(tame(items[i], (depth - 1) as nat));
                lemma_tame_shallow(items[i], (depth - 1) as nat);
            }
        },
        Tree::Table(m) => {
            assert forall|k: Seq<char>| #[trigger] m.dom().contains(k) implies shallow(
                m[k],
                (depth - 1) as nat,
            ) by {
                lemma_tame_shallow(m[k], (depth - 1) as nat);
            }
        },
        _ => {},
    }
}

proof fn lemma_displayed_floatless(t: Tree, u: Tree)
    requires
        displayed(t, u),
        floatless(t),
    ensures
        u == t,
    decreases t,
{
    match (t, u) {
        (Tree::List(a), Tree::List(b)) => {
            assert forall|i: int| 0 <= i < b.len() implies #[trigger] b[i] == a[i] by {
                assert(displayed(a[i], b[i]));
                assert(floatless(a[i]));
                lemma_displayed_floatless(a[i], b[i]);
            }
            assert(b =~= a);
        },
        (Tree::Table(a), Tree::Table(b)) => {
            assert forall|k: Seq<char>| #[trigger] b.dom().contains(k) implies b[k] == a[k] by {
                assert(a.dom().contains(k));
                lemma_displayed_floatless(a[k], b[k]);
            }
            assert(b =~= a);
        },
        _ => {},
    }
}

/// Write a tree as a TOML document: reading the text gives the tree back, each
/// floating-point number in the form in which it is displayed.
pub fn write_document(n: Node) -> (r: Result<String, String>)
    requires
        calm(n@),
    ensures
        r is Ok <==> spelled(n) && n@ is Table,
        r is Ok && (tame(n@, 16) || shallow(n@, 16) && floatless(n@)) ==> parsed_toml(r->Ok_0@) is Ok && displayed(
            n@,
            parsed_toml(r->Ok_0@)->Ok_0,
        ),
{
    let ghost t = n@;
    match value_of(n) {
        Some(v) => {
            let ghost u = value_tree(v);
            proof {
                lemma_displayed_calm(t, u);
                lemma_displayed_dateless(t, u);
                if tame(t, 16) {
                    lemma_displayed_tame(t, u, 16);
                    lemma_tame_shallow(u, 16);
                } else if floatless(t) {
                    lemma_displayed_floatless(t, u);
                }
            }
            print_value(&v)
        },
        None => Err("a number or a date that cannot be written".to_owned()),
    }
}

/// The field of a record: a table gives its fields by name, a list by position.
pub open spec fn field_of(t: Tree, key: Seq<char>, index: int) -> Option<Tree> {
    match t {
        Tree::Table(m) if m.dom().contains(key) => Some(m[key]),
        Tree::List(items) if index < items.len() => Some(items[index]),
        _ => None,
    }
}

/// Can the tree be read as a record?
pub open spec fn record(t: Tree) -> bool {
    t is Table || t is List
}

/// The tree of a node that may be absent.
pub open spec fn seen(f: Option<&Node>) -> Option<Tree> {
    match f {
        Some(n) => Some(n@),
        None => None,
    }
}

/// A list of nodes has a tree for each of them.
pub proof fn lemma_list_of(items: Seq<Node>)
    ensures
        list_of(items).len() == items.len(),
        forall|i: int| 0 <= i < items.len() ==> #[trigger] list_of(items)[i] == items[i]@,
    decreases items.len(),
{
    if items.len() > 0 {
        lemma_list_of(items.drop_last());
        assert forall|i: int| 0 <= i < items.len() implies #[trigger] list_of(items)[i]
            == items[i]@ by {
            if i < items.len() - 1 {
                assert(items.drop_last()[i] == items[i]);
            }
        }
    }
}

/// The value of a key is that of the last entry that names it.
pub proof fn lemma_table_last(entries: Seq<Entry>, key: Seq<char>, i: int)
    requires
        0 <= i <= entries.len(),
        forall|k: int| i < k < entries.len() ==> (#[trigger] entries[k]).key@ != key,
        i < entries.len() ==> entries[i].key@ == key,
        i == entries.len() ==> forall|k: int|
            0 <= k < entries.len() ==> (#[trigger] entries[k]).key@ != key,
    ensures
        table_of(entries).dom().contains(key) <==> i < entries.len(),
        i < entries.len() ==> table_of(entries)[key] == entries[i].value@,
    decreases entries.len(),
{
    if entries.len() > 0 {
        let front = entries.drop_last();
        if i == entries.len() {
            assert(entries[entries.len() - 1].key@ != key);
            lemma_table_last(front, key, front.len() as int);
        } else if i < entries.len() - 1 {
            assert(entries[entries.len() - 1].key@ != key);
            lemma_table_last(front, key, i);
        }
    }
}

/// Does a later entry name the same key?
pub open spec fn shadowed(entries: Seq<Entry>, i: int) -> bool {
    exists|j: int| i < j < entries.len() && (#[trigger] entries[j]).key@ == entries[i].key@
}

/// The index of the last entry that names the key.
pub proof fn lemma_last_entry(entries: Seq<Entry>, key: Seq<char>) -> (i: int)
    requires
        table_of(entries).dom().contains(key),
    ensures
        0 <= i < entries.len(),
        entries[i].key@ == key,
        !shadowed(entries, i),
        table_of(entries)[key] == entries[i].value@,
    decreases entries.len(),
{
    let front = entries.drop_last();
    if entries.last().key@ == key {
        entries.len() - 1
    } else {
        let i = lemma_last_entry(front, key);
        assert forall|j: int| i < j < entries.len() implies (#[trigger] entries[j]).key@
            != entries[i].key@ by {
            if j < front.len() {
                assert(front[j] == entries[j]);
                assert(!shadowed(front, i));
            }
        }
        i
    }
}

/// Does a later entry name the same key?
pub fn is_shadowed(entries: &Vec<Entry>, i: usize) -> (r: bool)
    requires
        i < entries.len(),
    ensures
        r == shadowed(entries@, i as int),
{
    let mut j: usize = i + 1;
    while j < entries.len()
        invariant
            i < j <= entries.len(),
            forall|k: int|
                i < k < j ==> (#[trigger] entries@[k]).key@ != entries@[i as int].key@,
        decreases entries.len() - j,
    {
        if text::same_text(entries[j].key.as_str(), entries[i].key.as_str()) {
            return true;
        }
        j = j + 1;
    }
    false
}

fn is_quote_heavy(s: &str) -> (r: bool)
    ensures
        r == quote_heavy(s@),
{
    let v: Vec<char> = text::chars_of(s);
    let mut doubles: usize = 0;
    let mut singles: usize = 0;
    let mut i: usize = 0;
    while i < v.len()
        invariant
            0 <= i <= v.len(),
            v@ == s@,
            doubles <= i,
            doubles < 256,
            singles <= i,
            singles < 256,
            forall|k: int| i - doubles <= k < i ==> #[trigger] s@[k] == '"',
            doubles < i ==> s@[i - doubles - 1] != '"',
            forall|k: int| i - singles <= k < i ==> #[trigger] s@[k] == '\'',
            singles < i ==> s@[i - singles - 1] != '\'',
            forall|a: int| 0 <= a && a + 256 <= i ==> !(#[trigger] quote_run(s@, a)),
        decreases v.len() - i,
    {
        if v[i] == '"' {
            doubles = doubles + 1;
        } else {
            doubles = 0;
        }
        if v[i] == '\'' {
            singles = singles + 1;
        } else {
            singles = 0;
        }
        i = i + 1;
        if doubles == 256 || singles == 256 {
            assert(quote_run(s@, i - 256));
            return true;
        }
        assert forall|a: int| 0 <= a && a + 256 <= i implies !(#[trigger] quote_run(s@, a)) by {
            if a + 256 == i {
                assert(s@[i - doubles - 1] != '"');
                assert(s@[i - singles - 1] != '\'');
            }
        }
    }
    false
}

proof fn lemma_calm_item(t: Tree, i: int)
    requires
        t is List,
        0 <= i < t->List_0.len(),
        calm(t),
    ensures
        calm(t->List_0[i]),
{
}

proof fn lemma_calm_value(t: Tree, key: Seq<char>)
    requires
        t is Table,
        t->Table_0.dom().contains(key),
        calm(t),
    ensures
        calm(t->Table_0[key]),
{
}

/// Does no text in the tree hold 256 quotation marks in a row?
pub fn is_calm(n: &Node) -> (r: bool)
    ensures
        r == calm(n@),
    decreases *n,
{
    match n {
        Node::Text(s) => !is_quote_heavy(s.as_str()),
        Node::List(items) => {
            let ghost trees = list_of(items@);
            proof {
                lemma_list_of(items@);
            }
            let mut i: usize = 0;
            while i < items.len()
                invariant
                    0 <= i <= items.len(),
                    *n == Node::List(*items),
                    trees == list_of(items@),
                    trees.len() == items.len(),
                    forall|k: int| 0 <= k < items.len() ==> #[trigger] trees[k] == items@[k]@,
                    n@ == Tree::List(trees),
                    forall|k: int| 0 <= k < i ==> calm(#[trigger] trees[k]),
                decreases items.len() - i,
            {
                if !is_calm(&items[i]) {
                    proof {
                        if calm(n@) {
                            lemma_calm_item(n@, i as int);
                        }
                    }
                    return false;
                }
                i = i + 1;
            }
            true
        },
        Node::Table(entries) => {
            let ghost m = table_of(entries@);
            let mut i: usize = 0;
            while i < entries.len()
                invariant
                    0 <= i <= entries.len(),
                    *n == Node::Table(*entries),
                    m == table_of(entries@),
                    n@ == Tree::Table(m),
                    forall|k: int|
                        0 <= k < i && !shadowed(entries@, k) ==> calm(
                            (#[trigger] entries@[k]).value@,
                        ),
                decreases entries.len() - i,
            {
                if !is_shadowed(entries, i) && !is_calm(&entries[i].value) {
                    proof {
                        let key = entries@[i as int].key@;
                        lemma_table_last(entries@, key, i as int);
                        assert(m.dom().contains(key));
                        if calm(n@) {
                            lemma_calm_value(n@, key);
                        }
                    }
                    return false;
                }
                i = i + 1;
            }
            assert forall|k: Seq<char>| #[trigger] m.dom().contains(k) implies calm(m[k]) by {
                let j = lemma_last_entry(entries@, k);
                assert(calm(entries@[j].value@));
            }
            true
        },
        _ => true,
    }
}

/// Is the value of each entry spelled?
pub open spec fn all_spelled(entries: Seq<Entry>) -> bool {
    forall|i: int| 0 <= i < entries.len() ==> spelled((#[trigger] entries[i]).value)
}

/// Add an entry to a table.
pub fn put(entries: &mut Vec<Entry>, key: &str, value: Node)
    ensures
        table_of(final(entries)@) == table_of(old(entries)@).insert(key@, value@),
        all_spelled(final(entries)@) == (all_spelled(old(entries)@) && spelled(value)),
{
    let ghost before = entries@;
    entries.push(Entry { key: key.to_owned(), value });
    proof {
        let after = entries@;
        assert(after.drop_last() =~= before);
        assert(after.last().value == value);
        assert(after[before.len() as int].value == value);
        if all_spelled(after) {
            assert forall|i: int| 0 <= i < before.len() implies spelled(
                (#[trigger] before[i]).value,
            ) by {
                assert(after[i] == before[i]);
            }
        }
    }
}

/// The text field of a table, where there is a text.
pub open spec fn with_text(
    m: Map<Seq<char>, Tree>,
    key: Seq<char>,
    value: Option<Seq<char>>,
) -> Map<Seq<char>, Tree> {
    match value {
        Some(s) => m.insert(key, Tree::Text(s)),
        None => m,
    }
}

/// Add a text to a table, where there is one.
pub fn put_optional_text(entries: &mut Vec<Entry>, key: &str, value: &Option<String>)
    ensures
        table_of(final(entries)@) == with_text(
            table_of(old(entries)@),
            key@,
            value.deep_view(),
        ),
        all_spelled(final(entries)@) == all_spelled(old(entries)@),
{
    if let Some(s) = value {
        put(entries, key, Node::Text(s.clone()));
    }
}

/// A tree has only one displayed form.
pub proof fn lemma_displayed_once(t: Tree, u: Tree, v: Tree)
    requires
        displayed(t, u),
        displayed(t, v),
    ensures
        u == v,
    decreases t,
{
    match (t, u, v) {
        (Tree::List(a), Tree::List(b), Tree::List(c)) => {
            assert forall|i: int| 0 <= i < a.len() implies b[i] == c[i] by {
                assert(displayed(a[i], b[i]));
                assert(displayed(a[i], c[i]));
                lemma_displayed_once(a[i], b[i], c[i]);
            }
            assert(b =~= c);
        },
        (Tree::Table(a), Tree::Table(b), Tree::Table(c)) => {
            assert forall|k: Seq<char>| #[trigger] a.dom().contains(k) implies b[k] == c[k] by {
                assert(displayed(a[k], b[k]));
                assert(displayed(a[k], c[k]));
                lemma_displayed_once(a[k], b[k], c[k]);
            }
            assert(b =~= c);
        },
        _ => {},
    }
}

/// Does the field hold a text?
pub open spec fn is_text(f: Option<Tree>) -> bool {
    f matches Some(Tree::Text(_))
}

/// The text that the field holds.
pub open spec fn text_in(f: Option<Tree>) -> Seq<char> {
    match f {
        Some(Tree::Text(s)) => s,
        _ => Seq::empty(),
    }
}

/// The text that the field holds, if it is there.
pub open spec fn some_text_in(f: Option<Tree>) -> Option<Seq<char>> {
    match f {
        Some(Tree::Text(s)) => Some(s),
        _ => None,
    }
}

/// The text that the field holds.
pub fn read_text(f: Option<&Node>) -> (r: Option<String>)
    ensures
        r is Some <==> is_text(seen(f)),
        r is Some ==> r->0@ == text_in(seen(f)),
        r.deep_view() == some_text_in(seen(f)),
{
    match f {
        Some(Node::Text(s)) => Some(s.clone()),
        _ => None,
    }
}

/// Is the field not there, or does it hold a text?
pub open spec fn is_text_or_absent(f: Option<Tree>) -> bool {
    f is None || is_text(f)
}

/// The text that the field holds, if it is there.
pub fn read_optional_text(f: Option<&Node>) -> (r: Option<Option<String>>)
    ensures
        r is Some <==> is_text_or_absent(seen(f)),
        r is Some ==> r->0.deep_view() == some_text_in(seen(f)),
{
    match f {
        Some(Node::Text(s)) => Some(Some(s.clone())),
        Some(_) => None,
        None => Some(None),
    }
}

/// Does the field hold a whole number from 0 to `max`?
pub open spec fn is_number(f: Option<Tree>, max: int) -> bool {
    f matches Some(Tree::Integer(i)) && 0 <= i <= max
}

/// The number that the field holds, or `missing` where it is not there.
pub open spec fn number_in(f: Option<Tree>, missing: int) -> int {
    match f {
        Some(Tree::Integer(i)) => i as int,
        _ => missing,
    }
}

/// The number that the field holds, if it is one from 0 to `max`.
pub fn read_number(f: Option<&Node>, max: u64) -> (r: Option<u64>)
    ensures
        r is Some <==> is_number(seen(f), max as int),
        r is Some ==> r->0 == number_in(seen(f), 0) && r->0 <= max,
{
    match f {
        Some(Node::Integer(i)) => if *i >= 0 && *i as u64 <= max {
            Some(*i as u64)
        } else {
            None
        },
        _ => None,
    }
}

/// Is the field not there, or does it hold a whole number from 0 to `max`?
pub open spec fn is_number_or_absent(f: Option<Tree>, max: int) -> bool {
    f is None || is_number(f, max)
}

/// The number that the field holds, or `missing` where it is not there.
pub fn read_optional_number(f: Option<&Node>, max: u64, missing: u64) -> (r: Option<u64>)
    requires
        missing <= max,
    ensures
        r is Some <==> is_number_or_absent(seen(f), max as int),
        r is Some ==> r->0 == number_in(seen(f), missing as int) && r->0 <= max,
{
    match f {
        Some(_) => read_number(f, max),
        None => Some(missing),
    }
}

/// Does the field hold a flag?
pub open spec fn is_flag(f: Option<Tree>) -> bool {
    f matches Some(Tree::Flag(_))
}

/// The flag that the field holds, or `false` where it is not there.
pub open spec fn flag_in(f: Option<Tree>) -> bool {
    f == Some(Tree::Flag(true))
}

/// Is the field not there, or does it hold a flag?
pub open spec fn is_flag_or_absent(f: Option<Tree>) -> bool {
    f is None || is_flag(f)
}

/// The flag that the field holds, or `false` where it is not there.
pub fn read_optional_flag(f: Option<&Node>) -> (r: Option<bool>)
    ensures
        r is Some <==> is_flag_or_absent(seen(f)),
        r is Some ==> r->0 == flag_in(seen(f)),
{
    match f {
        Some(Node::Flag(b)) => Some(*b),
        Some(_) => None,
        None => Some(false),
    }
}

/// Does the field hold a number, whole or not?
pub open spec fn is_rate(f: Option<Tree>) -> bool {
    f matches Some(Tree::Float(_)) || f matches Some(Tree::Integer(_))
}

/// The number that the field holds, in decimal.
pub open spec fn rate_in(f: Option<Tree>) -> Seq<char> {
    match f {
        Some(Tree::Float(s)) => s,
        Some(Tree::Integer(i)) => text::signed_decimal(i as int),
        _ => Seq::empty(),
    }
}

/// The number that the field holds, in decimal.
pub fn read_rate(f: Option<&Node>) -> (r: Option<String>)
    ensures
        r is Some <==> is_rate(seen(f)),
        r is Some ==> r->0@ == rate_in(seen(f)),
{
    match f {
        Some(Node::Float(s)) => Some(s.clone()),
        Some(Node::Integer(i)) => Some(text::i64_text(*i)),
        _ => None,
    }
}

/// Does the tree hold a list of texts?
pub open spec fn is_text_list(f: Option<Tree>) -> bool {
    f matches Some(Tree::List(items)) && forall|i: int|
        0 <= i < items.len() ==> (#[trigger] items[i]) is Text
}

/// The texts of a list.
pub open spec fn text_list_in(f: Option<Tree>) -> Seq<Seq<char>> {
    match f {
        Some(Tree::List(items)) => items.map_values(|t: Tree| text_in(Some(t))),
        _ => Seq::empty(),
    }
}

/// The list of texts that the field holds.
pub fn read_text_list(f: Option<&Node>) -> (r: Option<Vec<String>>)
    ensures
        r is Some <==> is_text_list(seen(f)),
        r is Some ==> r->0.deep_view() == text_list_in(seen(f)),
{
    match f {
        Some(Node::List(items)) => {
            let ghost trees = list_of(items@);
            proof {
                lemma_list_of(items@);
            }
            let mut texts: Vec<String> = Vec::new();
            let mut i: usize = 0;
            while i < items.len()
                invariant
                    0 <= i <= items.len(),
                    trees == list_of(items@),
                    trees.len() == items.len(),
                    forall|k: int| 0 <= k < items.len() ==> #[trigger] trees[k] == items@[k]@,
                    seen(f) == Some(Tree::List(trees)),
                    texts@.len() == i,
                    forall|k: int| 0 <= k < i ==> (#[trigger] trees[k]) is Text,
                    forall|k: int| 0 <= k < i ==> (#[trigger] texts@[k])@ == text_in(Some(trees[k])),
                decreases items.len() - i,
            {
                match &items[i] {
                    Node::Text(s) => {
                        assert(trees[i as int] == Tree::Text(s@));
                        texts.push(s.clone());
                    },
                    _ => {
                        assert(!(trees[i as int] is Text));
                        return None;
                    },
                }
                i = i + 1;
            }
            assert(texts.deep_view() =~= text_list_in(seen(f)));
            Some(texts)
        },
        _ => None,
    }
}

/// A list or a table with nothing in it.
pub open spec fn bare(t: Tree) -> bool {
    match t {
        Tree::List(items) => items.len() == 0,
        Tree::Table(m) => m.dom() =~= Set::<Seq<char>>::empty(),
        _ => false,
    }
}

/// Does the field choose the option of this name? An option is chosen by its
/// name, or by a table of one entry that has the name for its key and nothing
/// for its value.
pub open spec fn chooses(f: Option<Tree>, name: Seq<char>) -> bool {
    match f {
        Some(Tree::Text(s)) => s == name,
        Some(Tree::Table(m)) => m.dom() =~= set![name] && bare(m[name]),
        _ => false,
    }
}

fn is_bare(n: &Node) -> (r: bool)
    ensures
        r == bare(n@),
{
    match n {
        Node::List(items) => {
            proof {
                lemma_list_of(items@);
            }
            items.len() == 0
        },
        Node::Table(entries) => {
            proof {
                if entries@.len() > 0 {
                    let key = entries@.last().key@;
                    assert(table_of(entries@).dom().contains(key));
                }
            }
            entries.len() == 0
        },
        _ => false,
    }
}

/// The keys of a table are those that its entries name.
pub proof fn lemma_table_keys(entries: Seq<Entry>, key: Seq<char>)
    ensures
        table_of(entries).dom().contains(key) <==> exists|i: int|
            0 <= i < entries.len() && (#[trigger] entries[i]).key@ == key,
    decreases entries.len(),
{
    if entries.len() > 0 {
        let front = entries.drop_last();
        lemma_table_keys(front, key);
        if table_of(entries).dom().contains(key) {
            if entries.last().key@ == key {
                assert(entries[entries.len() - 1].key@ == key);
            } else {
                let i = choose|i: int| 0 <= i < front.len() && (#[trigger] front[i]).key@ == key;
                assert(entries[i].key@ == key);
            }
        }
        if exists|i: int| 0 <= i < entries.len() && (#[trigger] entries[i]).key@ == key {
            let i = choose|i: int| 0 <= i < entries.len() && (#[trigger] entries[i]).key@ == key;
            if i < front.len() {
                assert(front[i].key@ == key);
            }
        }
    }
}

/// Does the field choose the option of this name?
pub fn read_choice(f: Option<&Node>, name: &str) -> (r: bool)
    ensures
        r == chooses(seen(f), name@),
{
    match f {
        Some(Node::Text(s)) => text::same_text(s.as_str(), name),
        Some(Node::Table(entries)) => {
            let ghost m = table_of(entries@);
            if entries.len() == 0 {
                assert(!m.dom().contains(name@));
                return false;
            }
            let mut i: usize = 0;
            while i < entries.len()
                invariant
                    0 <= i <= entries.len(),
                    m == table_of(entries@),
                    seen(f) == Some(Tree::Table(m)),
                    forall|k: int| 0 <= k < i ==> (#[trigger] entries@[k]).key@ == name@,
                decreases entries.len() - i,
            {
                if !text::same_text(entries[i].key.as_str(), name) {
                    proof {
                        lemma_table_keys(entries@, entries@[i as int].key@);
                        assert(m.dom().contains(entries@[i as int].key@));
                    }
                    return false;
                }
                i = i + 1;
            }
            let last: usize = entries.len() - 1;
            proof {
                assert(m.dom() =~= set![name@]) by {
                    assert forall|k: Seq<char>| m.dom().contains(k) == set![name@].contains(k) by {
                        lemma_table_keys(entries@, k);
                        assert(entries@[last as int].key@ == name@);
                    }
                }
                lemma_table_last(entries@, name@, last as int);
            }
            is_bare(&entries[last].value)
        },
        _ => false,
    }
}

/// The field of a record: a table gives its fields by name, a list by position.
pub fn field<'a>(n: &'a Node, key: &str, index: usize) -> (r: Option<&'a Node>)
    ensures
        seen(r) == field_of(n@, key@, index as int),
{
    match n {
        Node::Table(entries) => {
            let mut i: usize = entries.len();
            while i > 0
                invariant
                    0 <= i <= entries.len(),
                    n@ == Tree::Table(table_of(entries@)),
                    forall|k: int| i <= k < entries.len() ==> (#[trigger] entries@[k]).key@ != key@,
                decreases i,
            {
                i = i - 1;
                if text::same_text(entries[i].key.as_str(), key) {
                    proof {
                        lemma_table_last(entries@, key@, i as int);
                    }
                    return Some(&entries[i].value);
                }
            }
            proof {
                lemma_table_last(entries@, key@, entries.len() as int);
            }
            None
        },
        Node::List(items) => {
            proof {
                lemma_list_of(items@);
            }
            if index < items.len() {
                Some(&items[index])
            } else {
                None
            }
        },
        _ => None,
    }
}

/// A table gives its fields by name, and a list by position; anything else has
/// no fields.
pub proof fn law_fields_by_name_or_position(
    m: Map<Seq<char>, Tree>,
    items: Seq<Tree>,
    other: Tree,
    key: Seq<char>,
    index: int,
)
    requires
        0 <= index,
        !(other is Table),
        !(other is List),
    ensures
        m.dom().contains(key) ==> field_of(Tree::Table(m), key, index) == Some(m[key]),
        !m.dom().contains(key) ==> field_of(Tree::Table(m), key, index) is None,
        index < items.len() ==> field_of(Tree::List(items), key, index) == Some(items[index]),
        index >= items.len() ==> field_of(Tree::List(items), key, index) is None,
        field_of(other, key, index) is None,
{
}

/// An option is chosen by its name, or by a table of one entry that has the name
/// for its key and an empty list or table for its value, and in no other way.
pub proof fn law_choice_by_name(t: Tree, name: Seq<char>)
    ensures
        !chooses(None, name),
        chooses(Some(t), name) <==> match t {
            Tree::Text(s) => s == name,
            Tree::Table(m) => {
                &&& m.dom().contains(name)
                &&& forall|key: Seq<char>| #[trigger] m.dom().contains(key) ==> key == name
                &&& match m[name] {
                    Tree::List(items) => items.len() == 0,
                    Tree::Table(inner) => forall|key: Seq<char>| !(
                    #[trigger] inner.dom().contains(key)),
                    _ => false,
                }
            },
            _ => false,
        },
{
    if let Tree::Table(m) = t {
        if m.dom().contains(name) && (forall|key: Seq<char>| #[trigger]
            m.dom().contains(key) ==> key == name) {
            assert(m.dom() =~= set![name]);
        }
        if m.dom() =~= set![name] {
            assert(set![name].contains(name));
            assert forall|key: Seq<char>| #[trigger] m.dom().contains(key) implies key == name by {
                assert(set![name].contains(key));
            }
            if let Tree::Table(inner) = m[name] {
                if forall|key: Seq<char>| !(#[trigger] inner.dom().contains(key)) {
                    assert(inner.dom() =~= Set::<Seq<char>>::empty());
                }
                if inner.dom() =~= Set::<Seq<char>>::empty() {
                    assert forall|key: Seq<char>| !(#[trigger] inner.dom().contains(key)) by {
                        assert(!Set::<Seq<char>>::empty().contains(key));
                    }
                }
            }
        }
    }
}

/// A field chooses one option at most.
pub proof fn lemma_one_choice(f: Option<Tree>, a: Seq<char>, b: Seq<char>)
    requires
        a != b,
    ensures
        !(chooses(f, a) && chooses(f, b)),
{
    if let Some(Tree::Table(m)) = f {
        assert(set![a].contains(a));
        assert(!set![b].contains(a));
    }
}

/// A text that is not calm has 256 characters in a row that are all the double
/// quotation mark or all the single one; the law gives such a place.
pub proof fn law_text_that_is_not_calm(s: Seq<char>) -> (i: int)
    requires
        !calm(Tree::Text(s)),
    ensures
        0 <= i,
        i + 256 <= s.len(),
        (forall|k: int| i <= k < i + 256 ==> #[trigger] s[k] == '"') || (forall|k: int|
            i <= k < i + 256 ==> #[trigger] s[k] == '\''),
{
    assert(quote_heavy(s));
    choose|i: int| 0 <= i && i + 256 <= s.len() && #[trigger] quote_run(s, i)
}

/// A text with 256 characters in a row that are all the same quotation mark is
/// not calm.
pub proof fn law_quotes_in_a_row(s: Seq<char>, i: int, quote: char)
    requires
        0 <= i,
        i + 256 <= s.len(),
        quote == '"' || quote == '\'',
        forall|k: int| i <= k < i + 256 ==> #[trigger] s[k] == quote,
    ensures
        !calm(Tree::Text(s)),
{
    assert(quote_run(s, i));
    assert(quote_heavy(s));
}

} // verus!
