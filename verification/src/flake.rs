//! The lock-file graph model, its loader, and the policy evaluator.
//!
//! A lock file is a flat table of named nodes together with the name of a
//! distinguished root node. The loader classifies every node structurally —
//! pinned-source shape first, then root shape, then an opaque catch-all —
//! resolves the root's input pointers against the table, and hands back an
//! immutable [`FlakeLock`]. The evaluator selects the tracked dependencies by
//! name from the full table and runs up to three policy checks on each, in a
//! fixed order, accumulating [`Issue`] records.

use vstd::prelude::*;
use vstd::string::StringExecFns;

use crate::error::{FlakeCheckerError, FlakeCheckerErrorSpec};
use crate::issue::{Issue, IssueDetails, IssueDetailsSpec, IssueKind, IssueSpec};
use crate::json::{json_of, parse_json, JsonValue};

verus! {

/// The freshness threshold in days: a pin strictly older than this is
/// flagged as outdated.
pub const MAX_DAYS: i64 = 30;

// ---------------------------------------------------------------------------
// The graph model
// ---------------------------------------------------------------------------

/// The resolved coordinates of a pinned source.
#[derive(Clone, Debug)]
pub struct RepoLocked {
    pub last_modified: i64,
    pub nar_hash: String,
    pub owner: String,
    pub repo: String,
    pub rev: String,
    pub node_type: String,
}

/// The mathematical value of a [`RepoLocked`].
pub struct RepoLockedSpec {
    pub last_modified: int,
    pub nar_hash: Seq<char>,
    pub owner: Seq<char>,
    pub repo: Seq<char>,
    pub rev: Seq<char>,
    pub node_type: Seq<char>,
}

impl View for RepoLocked {
    type V = RepoLockedSpec;

    open spec fn view(&self) -> RepoLockedSpec {
        RepoLockedSpec {
            last_modified: self.last_modified as int,
            nar_hash: self.nar_hash@,
            owner: self.owner@,
            repo: self.repo@,
            rev: self.rev@,
            node_type: self.node_type@,
        }
    }
}

/// The requested coordinates of a pinned source.
#[derive(Clone, Debug)]
pub struct RepoOriginal {
    pub owner: String,
    pub repo: String,
    pub node_type: String,
    pub git_ref: Option<String>,
}

/// The mathematical value of a [`RepoOriginal`].
pub struct RepoOriginalSpec {
    pub owner: Seq<char>,
    pub repo: Seq<char>,
    pub node_type: Seq<char>,
    pub git_ref: Option<Seq<char>>,
}

impl View for RepoOriginal {
    type V = RepoOriginalSpec;

    open spec fn view(&self) -> RepoOriginalSpec {
        RepoOriginalSpec {
            owner: self.owner@,
            repo: self.repo@,
            node_type: self.node_type@,
            git_ref: match self.git_ref {
                Some(r) => Some(r@),
                None => None,
            },
        }
    }
}

/// One dependency reference of a pinned source: either a single node name or
/// a path of names through intermediate inputs.
#[derive(Clone, Debug)]
pub enum Input {
    Single(String),
    List(Vec<String>),
}

/// The mathematical value of an [`Input`].
pub enum InputSpec {
    Single(Seq<char>),
    List(Seq<Seq<char>>),
}

impl View for Input {
    type V = InputSpec;

    open spec fn view(&self) -> InputSpec {
        match self {
            Input::Single(s) => InputSpec::Single(s@),
            Input::List(l) => InputSpec::List(Seq::new(l@.len(), |i: int| l@[i]@)),
        }
    }
}

/// A pinned external source: the requested coordinates, the resolved
/// coordinates, and optionally its own dependency references.
#[derive(Clone, Debug)]
pub struct RepoNode {
    pub inputs: Option<Vec<(String, Input)>>,
    pub locked: RepoLocked,
    pub original: RepoOriginal,
}

/// The mathematical value of a [`RepoNode`].
pub struct RepoNodeSpec {
    pub inputs: Option<Seq<(Seq<char>, InputSpec)>>,
    pub locked: RepoLockedSpec,
    pub original: RepoOriginalSpec,
}

impl View for RepoNode {
    type V = RepoNodeSpec;

    open spec fn view(&self) -> RepoNodeSpec {
        RepoNodeSpec {
            inputs: match &self.inputs {
                Some(v) => Some(Seq::new(v@.len(), |i: int| (v@[i].0@, v@[i].1@))),
                None => None,
            },
            locked: self.locked@,
            original: self.original@,
        }
    }
}

/// The synthetic entry point of the graph: a table from input name to the
/// name of the node it points at.
#[derive(Clone, Debug)]
pub struct RootNode {
    pub inputs: Vec<(String, String)>,
}

/// The mathematical value of a [`RootNode`].
pub struct RootNodeSpec {
    pub inputs: Seq<(Seq<char>, Seq<char>)>,
}

impl View for RootNode {
    type V = RootNodeSpec;

    open spec fn view(&self) -> RootNodeSpec {
        RootNodeSpec { inputs: Seq::new(self.inputs@.len(), |i: int| (self.inputs@[i].0@, self.inputs@[i].1@)) }
    }
}

/// One vertex of the dependency graph, classified structurally.
#[derive(Debug)]
pub enum Node {
    Root(RootNode),
    Repo(Box<RepoNode>),
    /// Any node shape irrelevant to the policy checks, carried opaquely so
    /// that loading never fails on it.
    Fallthrough(JsonValue),
}

/// The mathematical value of a [`Node`]. A fallthrough payload is plain data
/// of this crate already and stands for itself.
pub enum NodeSpec {
    Root(RootNodeSpec),
    Repo(RepoNodeSpec),
    Fallthrough(JsonValue),
}

impl View for Node {
    type V = NodeSpec;

    open spec fn view(&self) -> NodeSpec {
        match self {
            Node::Root(r) => NodeSpec::Root(r@),
            Node::Repo(r) => NodeSpec::Repo((**r)@),
            Node::Fallthrough(v) => NodeSpec::Fallthrough(*v),
        }
    }
}

impl Node {
    /// The name of the structural shape this node was classified into.
    pub fn variant(&self) -> (r: &'static str)
        ensures
            r@ == variant_name(self@),
    {
        match self {
            Node::Root(_) => "Root",
            Node::Repo(_) => "Repo",
            Node::Fallthrough(_) => "Fallthrough",
        }
    }

    /// Whether this node is a pinned source fetched from GitHub whose
    /// requested repository is `nixpkgs`.
    pub fn is_nixpkgs(&self) -> (r: bool)
        ensures
            r == spec_is_nixpkgs(self@),
    {
        match self {
            Node::Repo(repo) => {
                str_eq(repo.locked.node_type.as_str(), "github") && str_eq(
                    repo.original.repo.as_str(),
                    "nixpkgs",
                )
            },
            _ => false,
        }
    }
}

/// The shape name a node reports through [`Node::variant`].
pub open spec fn variant_name(n: NodeSpec) -> Seq<char> {
    match n {
        NodeSpec::Root(_) => "Root"@,
        NodeSpec::Repo(_) => "Repo"@,
        NodeSpec::Fallthrough(_) => "Fallthrough"@,
    }
}

/// Whether a node is a GitHub-typed pinned source requesting `nixpkgs`.
pub open spec fn spec_is_nixpkgs(n: NodeSpec) -> bool {
    match n {
        NodeSpec::Repo(repo) => repo.locked.node_type == "github"@ && repo.original.repo == "nixpkgs"@,
        _ => false,
    }
}

// ---------------------------------------------------------------------------
// Lookup in a JSON object's member list
// ---------------------------------------------------------------------------

/// How many members of `o` are named `k`.
pub open spec fn key_count(o: Seq<(String, JsonValue)>, k: Seq<char>) -> nat
    decreases o.len(),
{
    if o.len() == 0 {
        0
    } else {
        key_count(o.drop_last(), k) + if o.last().0@ == k { 1nat } else { 0nat }
    }
}

/// The value of the first member of `o` named `k`, if any.
pub open spec fn key_find(o: Seq<(String, JsonValue)>, k: Seq<char>) -> Option<JsonValue>
    decreases o.len(),
{
    if o.len() == 0 {
        None
    } else {
        match key_find(o.drop_last(), k) {
            Some(v) => Some(v),
            None => if o.last().0@ == k {
                Some(o.last().1)
            } else {
                None
            },
        }
    }
}

/// The value of a member that must occur exactly once to count as present:
/// a duplicated required member disqualifies the shape it appears in.
pub open spec fn key_field(o: Seq<(String, JsonValue)>, k: Seq<char>) -> Option<JsonValue> {
    if key_count(o, k) == 1 {
        key_find(o, k)
    } else {
        None
    }
}

/// The value of a member that may be spelled with either of two names, one
/// canonical and one legacy; present means spelled exactly once in total.
pub open spec fn alias_field(o: Seq<(String, JsonValue)>, k1: Seq<char>, k2: Seq<char>) -> Option<
    JsonValue,
> {
    if key_count(o, k1) + key_count(o, k2) == 1 {
        match key_find(o, k1) {
            Some(v) => Some(v),
            None => key_find(o, k2),
        }
    } else {
        None
    }
}

proof fn lemma_key_prefix_step(o: Seq<(String, JsonValue)>, i: int, k: Seq<char>)
    requires
        0 <= i < o.len(),
    ensures
        key_count(o.subrange(0, i + 1), k) == key_count(o.subrange(0, i), k) + (if o[i].0@ == k {
            1nat
        } else {
            0nat
        }),
        key_find(o.subrange(0, i + 1), k) == match key_find(o.subrange(0, i), k) {
            Some(v) => Some(v),
            None => if o[i].0@ == k {
                Some(o[i].1)
            } else {
                None
            },
        },
{
    assert(o.subrange(0, i + 1).drop_last() =~= o.subrange(0, i));
    assert(o.subrange(0, i + 1).last() == o[i]);
}

proof fn lemma_count_zero_iff_find_none(o: Seq<(String, JsonValue)>, k: Seq<char>)
    ensures
        (key_count(o, k) == 0) <==> (key_find(o, k) is None),
    decreases o.len(),
{
    if o.len() > 0 {
        lemma_count_zero_iff_find_none(o.drop_last(), k);
    }
}

/// Compares two string slices by contents.
fn str_eq(a: &str, b: &str) -> (r: bool)
    ensures
        r == (a@ == b@),
{
    let x = a.to_owned();
    let y = b.to_owned();
    x == y
}

/// Counts the members of `o` named `k`.
fn obj_count(o: &Vec<(String, JsonValue)>, k: &str) -> (n: usize)
    ensures
        n == key_count(o@, k@),
{
    let mut n: usize = 0;
    let mut i: usize = 0;
    proof {
        assert(o@.subrange(0, 0) =~= Seq::<(String, JsonValue)>::empty());
    }
    while i < o.len()
        invariant
            i <= o@.len(),
            n == key_count(o@.subrange(0, i as int), k@),
            n <= i,
        decreases o@.len() - i,
    {
        proof {
            lemma_key_prefix_step(o@, i as int, k@);
        }
        if str_eq(o[i].0.as_str(), k) {
            n = n + 1;
        }
        i = i + 1;
    }
    proof {
        assert(o@.subrange(0, o@.len() as int) =~= o@);
    }
    n
}

/// Finds the first member of `o` named `k`.
fn obj_find<'a>(o: &'a Vec<(String, JsonValue)>, k: &str) -> (r: Option<&'a JsonValue>)
    ensures
        match r {
            Some(v) => key_find(o@, k@) == Some(*v),
            None => key_find(o@, k@) is None,
        },
{
    let mut found: Option<usize> = None;
    let mut i: usize = 0;
    proof {
        assert(o@.subrange(0, 0) =~= Seq::<(String, JsonValue)>::empty());
    }
    while i < o.len()
        invariant
            i <= o@.len(),
            match found {
                Some(j) => j < i && key_find(o@.subrange(0, i as int), k@) == Some(o@[j as int].1),
                None => key_find(o@.subrange(0, i as int), k@) is None,
            },
        decreases o@.len() - i,
    {
        proof {
            lemma_key_prefix_step(o@, i as int, k@);
        }
        if found.is_none() && str_eq(o[i].0.as_str(), k) {
            found = Some(i);
        }
        i = i + 1;
    }
    proof {
        assert(o@.subrange(0, o@.len() as int) =~= o@);
    }
    match found {
        Some(j) => Some(&o[j].1),
        None => None,
    }
}

/// Finds the member of `o` that must occur exactly once under `k`.
fn obj_field<'a>(o: &'a Vec<(String, JsonValue)>, k: &str) -> (r: Option<&'a JsonValue>)
    ensures
        match r {
            Some(v) => key_field(o@, k@) == Some(*v),
            None => key_field(o@, k@) is None,
        },
{
    proof {
        lemma_count_zero_iff_find_none(o@, k@);
    }
    if obj_count(o, k) == 1 {
        obj_find(o, k)
    } else {
        None
    }
}

/// Finds the member of `o` spelled exactly once as either `k1` or `k2`.
fn obj_alias<'a>(o: &'a Vec<(String, JsonValue)>, k1: &str, k2: &str) -> (r: Option<
    &'a JsonValue,
>)
    ensures
        match r {
            Some(v) => alias_field(o@, k1@, k2@) == Some(*v),
            None => alias_field(o@, k1@, k2@) is None,
        },
{
    proof {
        lemma_count_zero_iff_find_none(o@, k1@);
        lemma_count_zero_iff_find_none(o@, k2@);
    }
    let n1 = obj_count(o, k1);
    let n2 = obj_count(o, k2);
    if n1 == 1 && n2 == 0 {
        obj_find(o, k1)
    } else if n1 == 0 && n2 == 1 {
        obj_find(o, k2)
    } else {
        None
    }
}

} // verus!

verus! {

// ---------------------------------------------------------------------------
// Structural classification of nodes
// ---------------------------------------------------------------------------

/// The text of a JSON string value.
pub open spec fn as_text(v: JsonValue) -> Option<Seq<char>> {
    match v {
        JsonValue::Text(s) => Some(s@),
        _ => None,
    }
}

/// The member list of a JSON object value.
pub open spec fn as_obj(v: JsonValue) -> Option<Seq<(String, JsonValue)>> {
    match v {
        JsonValue::Obj(o) => Some(o@),
        _ => None,
    }
}

/// The resolved-coordinates shape: an object with a last-modified timestamp,
/// a content hash, owner, repository, revision and source type, the
/// timestamp and hash and type each accepted under a canonical name or a
/// legacy alias. Unknown extra members never disqualify the shape.
pub open spec fn locked_of(v: JsonValue) -> Option<RepoLockedSpec> {
    match as_obj(v) {
        Some(o) => match (
            alias_field(o, "lastModified"@, "last_modified"@),
            alias_field(o, "narHash"@, "nar_hash"@),
            key_field(o, "owner"@),
            key_field(o, "repo"@),
            key_field(o, "rev"@),
            alias_field(o, "type"@, "node_type"@),
        ) {
            (
                Some(JsonValue::Int(lm)),
                Some(JsonValue::Text(nh)),
                Some(JsonValue::Text(ow)),
                Some(JsonValue::Text(rp)),
                Some(JsonValue::Text(rv)),
                Some(JsonValue::Text(ty)),
            ) => Some(
                RepoLockedSpec {
                    last_modified: lm as int,
                    nar_hash: nh@,
                    owner: ow@,
                    repo: rp@,
                    rev: rv@,
                    node_type: ty@,
                },
            ),
            _ => None,
        },
        None => None,
    }
}

/// The requested-coordinates shape: owner, repository and source type, plus
/// an optional ref accepted under a canonical name or a legacy alias.
pub open spec fn original_of(v: JsonValue) -> Option<RepoOriginalSpec> {
    match as_obj(v) {
        Some(o) => match (
            key_field(o, "owner"@),
            key_field(o, "repo"@),
            alias_field(o, "type"@, "node_type"@),
        ) {
            (Some(JsonValue::Text(ow)), Some(JsonValue::Text(rp)), Some(JsonValue::Text(ty))) => {
                if key_count(o, "ref"@) + key_count(o, "git_ref"@) == 0 {
                    Some(
                        RepoOriginalSpec { owner: ow@, repo: rp@, node_type: ty@, git_ref: None },
                    )
                } else {
                    match alias_field(o, "ref"@, "git_ref"@) {
                        Some(JsonValue::Text(r)) => Some(
                            RepoOriginalSpec {
                                owner: ow@,
                                repo: rp@,
                                node_type: ty@,
                                git_ref: Some(r@),
                            },
                        ),
                        _ => None,
                    }
                }
            },
            _ => None,
        },
        None => None,
    }
}

/// One dependency reference: a node name, or a list of names.
pub open spec fn input_of(v: JsonValue) -> Option<InputSpec> {
    match v {
        JsonValue::Text(s) => Some(InputSpec::Single(s@)),
        JsonValue::Arr(a) => if forall|i: int| 0 <= i < a@.len() ==> (#[trigger] a@[i]) is Text {
            Some(InputSpec::List(Seq::new(a@.len(), |i: int| a@[i]->Text_0@)))
        } else {
            None
        },
        _ => None,
    }
}

/// The optional `inputs` table of a pinned source. The outer `None` means
/// the member is present but not a table of dependency references, which
/// disqualifies the pinned-source shape.
pub open spec fn repo_inputs_of(o: Seq<(String, JsonValue)>) -> Option<
    Option<Seq<(Seq<char>, InputSpec)>>,
> {
    if key_count(o, "inputs"@) == 0 {
        Some(None)
    } else {
        match key_field(o, "inputs"@) {
            Some(JsonValue::Obj(io)) => {
                if forall|i: int| 0 <= i < io@.len() ==> input_of(#[trigger] io@[i].1) is Some {
                    Some(
                        Some(
                            Seq::new(io@.len(), |i: int| (io@[i].0@, input_of(io@[i].1)->Some_0)),
                        ),
                    )
                } else {
                    None
                }
            },
            _ => None,
        }
    }
}

/// The model of an optional owned `inputs` table.
pub open spec fn inputs_view(x: Option<Vec<(String, Input)>>) -> Option<
    Seq<(Seq<char>, InputSpec)>,
> {
    match x {
        Some(v) => Some(Seq::new(v@.len(), |i: int| (v@[i].0@, v@[i].1@))),
        None => None,
    }
}

/// The pinned-source shape: `locked` and `original` members of the right
/// shapes, and an optional `inputs` table.
pub open spec fn repo_of(v: JsonValue) -> Option<RepoNodeSpec> {
    match as_obj(v) {
        Some(o) => match (key_field(o, "locked"@), key_field(o, "original"@)) {
            (Some(lv), Some(ov)) => match (locked_of(lv), original_of(ov), repo_inputs_of(o)) {
                (Some(l), Some(orig), Some(ins)) => Some(
                    RepoNodeSpec { inputs: ins, locked: l, original: orig },
                ),
                _ => None,
            },
            _ => None,
        },
        None => None,
    }
}

/// The root shape: an object whose `inputs` member maps names to names.
pub open spec fn root_of(v: JsonValue) -> Option<RootNodeSpec> {
    match as_obj(v) {
        Some(o) => match key_field(o, "inputs"@) {
            Some(JsonValue::Obj(io)) => {
                if forall|i: int| 0 <= i < io@.len() ==> (#[trigger] io@[i].1) is Text {
                    Some(
                        RootNodeSpec {
                            inputs: Seq::new(io@.len(), |i: int| (io@[i].0@, io@[i].1->Text_0@)),
                        },
                    )
                } else {
                    None
                }
            },
            _ => None,
        },
        None => None,
    }
}

/// Ordered structural classification: the most field-specific shape first
/// (pinned source), then the root shape, and an opaque catch-all so that
/// loading never fails on a node kind irrelevant to the checks.
pub open spec fn node_of(v: JsonValue) -> NodeSpec {
    if repo_of(v) is Some {
        NodeSpec::Repo(repo_of(v)->Some_0)
    } else if root_of(v) is Some {
        NodeSpec::Root(root_of(v)->Some_0)
    } else {
        NodeSpec::Fallthrough(v)
    }
}

fn try_locked(v: &JsonValue) -> (r: Option<RepoLocked>)
    ensures
        match r {
            Some(l) => locked_of(*v) == Some(l@),
            None => locked_of(*v) is None,
        },
{
    match v {
        JsonValue::Obj(o) => {
            match (
                obj_alias(o, "lastModified", "last_modified"),
                obj_alias(o, "narHash", "nar_hash"),
                obj_field(o, "owner"),
                obj_field(o, "repo"),
                obj_field(o, "rev"),
                obj_alias(o, "type", "node_type"),
            ) {
                (
                    Some(JsonValue::Int(lm)),
                    Some(JsonValue::Text(nh)),
                    Some(JsonValue::Text(ow)),
                    Some(JsonValue::Text(rp)),
                    Some(JsonValue::Text(rv)),
                    Some(JsonValue::Text(ty)),
                ) => Some(
                    RepoLocked {
                        last_modified: *lm,
                        nar_hash: nh.clone(),
                        owner: ow.clone(),
                        repo: rp.clone(),
                        rev: rv.clone(),
                        node_type: ty.clone(),
                    },
                ),
                _ => None,
            }
        },
        _ => None,
    }
}

fn try_original(v: &JsonValue) -> (r: Option<RepoOriginal>)
    ensures
        match r {
            Some(orig) => original_of(*v) == Some(orig@),
            None => original_of(*v) is None,
        },
{
    match v {
        JsonValue::Obj(o) => {
            match (obj_field(o, "owner"), obj_field(o, "repo"), obj_alias(o, "type", "node_type")) {
                (
                    Some(JsonValue::Text(ow)),
                    Some(JsonValue::Text(rp)),
                    Some(JsonValue::Text(ty)),
                ) => {
                    if obj_count(o, "ref") == 0 && obj_count(o, "git_ref") == 0 {
                        Some(
                            RepoOriginal {
                                owner: ow.clone(),
                                repo: rp.clone(),
                                node_type: ty.clone(),
                                git_ref: None,
                            },
                        )
                    } else {
                        match obj_alias(o, "ref", "git_ref") {
                            Some(JsonValue::Text(r)) => Some(
                                RepoOriginal {
                                    owner: ow.clone(),
                                    repo: rp.clone(),
                                    node_type: ty.clone(),
                                    git_ref: Some(r.clone()),
                                },
                            ),
                            _ => None,
                        }
                    }
                },
                _ => None,
            }
        },
        _ => None,
    }
}

#[verifier::loop_isolation(false)]
fn try_input(v: &JsonValue) -> (r: Option<Input>)
    ensures
        match r {
            Some(x) => input_of(*v) == Some(x@),
            None => input_of(*v) is None,
        },
{
    match v {
        JsonValue::Text(s) => Some(Input::Single(s.clone())),
        JsonValue::Arr(a) => {
            let mut out: Vec<String> = Vec::new();
            let mut i: usize = 0;
            while i < a.len()
                invariant
                    i <= a@.len(),
                    out@.len() == i as int,
                    forall|j: int|
                        0 <= j < i ==> (#[trigger] a@[j]) is Text && out@[j]@ == a@[j]->Text_0@,
                decreases a@.len() - i,
            {
                match &a[i] {
                    JsonValue::Text(s) => {
                        out.push(s.clone());
                    },
                    _ => {
                        proof {
                            assert(!((a@[i as int]) is Text));
                        }
                        return None;
                    },
                }
                i = i + 1;
            }
            proof {
                let s1 = Seq::new(a@.len(), |i: int| a@[i]->Text_0@);
                let s2 = Seq::new(out@.len(), |i: int| out@[i]@);
                assert(s1 =~= s2);
            }
            Some(Input::List(out))
        },
        _ => None,
    }
}

#[verifier::loop_isolation(false)]
fn try_repo_inputs(o: &Vec<(String, JsonValue)>) -> (r: Result<Option<Vec<(String, Input)>>, ()>)
    ensures
        match r {
            Ok(x) => repo_inputs_of(o@) == Some(inputs_view(x)),
            Err(_) => repo_inputs_of(o@) is None,
        },
{
    if obj_count(o, "inputs") == 0 {
        return Ok(None);
    }
    let fv = obj_field(o, "inputs");
    match fv {
        Some(JsonValue::Obj(io)) => {
            let mut out: Vec<(String, Input)> = Vec::new();
            let mut i: usize = 0;
            while i < io.len()
                invariant
                    i <= io@.len(),
                    out@.len() == i as int,
                    forall|j: int|
                        0 <= j < i ==> input_of(#[trigger] io@[j].1) is Some && out@[j].0@
                            == io@[j].0@ && out@[j].1@ == input_of(io@[j].1)->Some_0,
                decreases io@.len() - i,
            {
                match try_input(&io[i].1) {
                    Some(x) => {
                        out.push((io[i].0.clone(), x));
                    },
                    None => {
                        proof {
                            assert(input_of(io@[i as int].1) is None);
                        }
                        return Err(());
                    },
                }
                i = i + 1;
            }
            proof {
                let s1 = Seq::new(io@.len(), |i: int| (io@[i].0@, input_of(io@[i].1)->Some_0));
                let s2 = Seq::new(out@.len(), |i: int| (out@[i].0@, out@[i].1@));
                assert(s1 =~= s2);
            }
            Ok(Some(out))
        },
        _ => Err(()),
    }
}

fn try_repo(v: &JsonValue) -> (r: Option<RepoNode>)
    ensures
        match r {
            Some(n) => repo_of(*v) == Some(n@),
            None => repo_of(*v) is None,
        },
{
    match v {
        JsonValue::Obj(o) => {
            match (obj_field(o, "locked"), obj_field(o, "original")) {
                (Some(lv), Some(ov)) => {
                    match (try_locked(lv), try_original(ov)) {
                        (Some(l), Some(orig)) => match try_repo_inputs(o) {
                            Ok(ins) => Some(RepoNode { inputs: ins, locked: l, original: orig }),
                            Err(_) => None,
                        },
                        _ => None,
                    }
                },
                _ => None,
            }
        },
        _ => None,
    }
}

#[verifier::loop_isolation(false)]
fn try_root(v: &JsonValue) -> (r: Option<RootNode>)
    ensures
        match r {
            Some(n) => root_of(*v) == Some(n@),
            None => root_of(*v) is None,
        },
{
    match v {
        JsonValue::Obj(o) => {
            let fv = obj_field(o, "inputs");
            match fv {
                Some(JsonValue::Obj(io)) => {
                    let mut out: Vec<(String, String)> = Vec::new();
                    let mut i: usize = 0;
                    while i < io.len()
                        invariant
                            i <= io@.len(),
                            out@.len() == i as int,
                            forall|j: int|
                                0 <= j < i ==> (#[trigger] io@[j].1) is Text && out@[j].0@
                                    == io@[j].0@ && out@[j].1@ == io@[j].1->Text_0@,
                        decreases io@.len() - i,
                    {
                        match &io[i].1 {
                            JsonValue::Text(s) => {
                                out.push((io[i].0.clone(), s.clone()));
                            },
                            _ => {
                                proof {
                                    assert(!((io@[i as int].1) is Text));
                                }
                                return None;
                            },
                        }
                        i = i + 1;
                    }
                    proof {
                        let s1 = Seq::new(io@.len(), |i: int| (io@[i].0@, io@[i].1->Text_0@));
                        let s2 = Seq::new(out@.len(), |i: int| (out@[i].0@, out@[i].1@));
                        assert(s1 =~= s2);
                    }
                    Some(RootNode { inputs: out })
                },
                _ => None,
            }
        },
        _ => None,
    }
}

/// Classifies one node value, structurally and in order.
fn classify(v: JsonValue) -> (n: Node)
    ensures
        n@ == node_of(v),
{
    match try_repo(&v) {
        Some(r) => Node::Repo(Box::new(r)),
        None => match try_root(&v) {
            Some(r) => Node::Root(r),
            None => Node::Fallthrough(v),
        },
    }
}

} // verus!

verus! {

// ---------------------------------------------------------------------------
// The lock itself and its loader
// ---------------------------------------------------------------------------

/// A loaded lock file: the flat table of named, classified nodes; the root
/// node's input table, each pointer checked to resolve against the node
/// table (cross-node references stay by name and are resolved through the
/// table on demand); and the schema version, carried through uninterpreted.
///
/// Note that the policy path selects tracked dependencies by scanning the
/// whole node table by name: the resolved root mapping is built and
/// validated at load time but not consulted by the checks. That mirrors the
/// observed selection semantics and is worth product clarification before
/// narrowing selection to root-level inputs.
#[derive(Debug)]
pub struct FlakeLock {
    nodes: Vec<(String, Node)>,
    root: Vec<(String, String)>,
    version: u64,
}

/// The mathematical value of a [`FlakeLock`].
pub struct FlakeLockSpec {
    pub nodes: Seq<(Seq<char>, NodeSpec)>,
    pub root: Seq<(Seq<char>, Seq<char>)>,
    pub version: int,
}

/// The model of a node table.
pub open spec fn nodes_view(s: Seq<(String, Node)>) -> Seq<(Seq<char>, NodeSpec)> {
    Seq::new(s.len(), |i: int| (s[i].0@, s[i].1@))
}

impl View for FlakeLock {
    type V = FlakeLockSpec;

    closed spec fn view(&self) -> FlakeLockSpec {
        FlakeLockSpec {
            nodes: nodes_view(self.nodes@),
            root: Seq::new(self.root@.len(), |i: int| (self.root@[i].0@, self.root@[i].1@)),
            version: self.version as int,
        }
    }
}

/// The node under the first occurrence of a name in the table.
pub open spec fn lookup_node(nodes: Seq<(Seq<char>, NodeSpec)>, k: Seq<char>) -> Option<NodeSpec>
    decreases nodes.len(),
{
    if nodes.len() == 0 {
        None
    } else {
        match lookup_node(nodes.drop_last(), k) {
            Some(v) => Some(v),
            None => if nodes.last().0 == k {
                Some(nodes.last().1)
            } else {
                None
            },
        }
    }
}

/// The classified model of a `nodes` object: every member name paired with
/// the structural classification of its value.
pub open spec fn nodes_table_of(nobj: Seq<(String, JsonValue)>) -> Seq<(Seq<char>, NodeSpec)> {
    Seq::new(nobj.len(), |i: int| (nobj[i].0@, node_of(nobj[i].1)))
}

/// The first root input whose target name is absent from the node table.
pub open spec fn first_unresolved(
    nodes: Seq<(Seq<char>, NodeSpec)>,
    inputs: Seq<(Seq<char>, Seq<char>)>,
) -> Option<(Seq<char>, Seq<char>)>
    decreases inputs.len(),
{
    if inputs.len() == 0 {
        None
    } else {
        match first_unresolved(nodes, inputs.drop_last()) {
            Some(p) => Some(p),
            None => if lookup_node(nodes, inputs.last().1) is None {
                Some(inputs.last())
            } else {
                None
            },
        }
    }
}

/// The name of the first top-level member that is none of `nodes`, `root`
/// and `version`. The top level tolerates no unknown members, unlike a node
/// object, whose classification ignores them.
pub open spec fn first_unknown(top: Seq<(String, JsonValue)>) -> Option<Seq<char>>
    decreases top.len(),
{
    if top.len() == 0 {
        None
    } else {
        match first_unknown(top.drop_last()) {
            Some(n) => Some(n),
            None => if top.last().0@ != "nodes"@ && top.last().0@ != "root"@ && top.last().0@
                != "version"@ {
                Some(top.last().0@)
            } else {
                None
            },
        }
    }
}

/// What loading a parsed lock-file document yields: the graph, or the
/// message of the structural error that stops the load.
pub open spec fn lock_of(j: JsonValue) -> Result<FlakeLockSpec, Seq<char>> {
    match as_obj(j) {
        None => Err("expected a JSON object at the top level"@),
        Some(top) => if first_unknown(top) is Some {
            Err("unknown field `"@ + first_unknown(top)->Some_0 + "`"@)
        } else if key_count(top, "nodes"@) > 1 {
            Err("duplicate field `nodes`"@)
        } else if key_count(top, "root"@) > 1 {
            Err("duplicate field `root`"@)
        } else if key_count(top, "version"@) > 1 {
            Err("duplicate field `version`"@)
        } else if key_count(top, "nodes"@) == 0 {
            Err("missing field `nodes`"@)
        } else if key_count(top, "root"@) == 0 {
            Err("missing field `root`"@)
        } else if key_count(top, "version"@) == 0 {
            Err("missing field `version`"@)
        } else {
            match key_find(top, "nodes"@) {
                Some(JsonValue::Obj(nobj)) => match key_find(top, "root"@) {
                    Some(JsonValue::Text(rname)) => match key_find(top, "version"@) {
                        Some(JsonValue::Int(ver)) => if ver < 0 {
                            Err("the field `version` is not an unsigned integer"@)
                        } else {
                            let table = nodes_table_of(nobj@);
                            match lookup_node(table, rname@) {
                                None => Err(
                                    "the declared root `"@ + rname@
                                        + "` is not in the node table"@,
                                ),
                                Some(NodeSpec::Root(rn)) => match first_unresolved(
                                    table,
                                    rn.inputs,
                                ) {
                                    Some(p) => Err(
                                        "the root input `"@ + p.0 + "` points to `"@ + p.1
                                            + "`, which is not in the node table"@,
                                    ),
                                    None => Ok(
                                        FlakeLockSpec {
                                            nodes: table,
                                            root: rn.inputs,
                                            version: ver as int,
                                        },
                                    ),
                                },
                                Some(other) => Err(
                                    "root node was not a Root node, but was a "@ + variant_name(
                                        other,
                                    ) + " node"@,
                                ),
                            }
                        },
                        _ => Err("the field `version` is not an unsigned integer"@),
                    },
                    _ => Err("the field `root` is not a string"@),
                },
                _ => Err("the field `nodes` is not an object"@),
            }
        },
    }
}

proof fn lemma_lookup_prefix_step(s: Seq<(Seq<char>, NodeSpec)>, i: int, k: Seq<char>)
    requires
        0 <= i < s.len(),
    ensures
        lookup_node(s.subrange(0, i + 1), k) == match lookup_node(s.subrange(0, i), k) {
            Some(v) => Some(v),
            None => if s[i].0 == k {
                Some(s[i].1)
            } else {
                None
            },
        },
{
    assert(s.subrange(0, i + 1).drop_last() =~= s.subrange(0, i));
    assert(s.subrange(0, i + 1).last() == s[i]);
}

proof fn lemma_unresolved_prefix_step(
    nodes: Seq<(Seq<char>, NodeSpec)>,
    inputs: Seq<(Seq<char>, Seq<char>)>,
    i: int,
)
    requires
        0 <= i < inputs.len(),
    ensures
        first_unresolved(nodes, inputs.subrange(0, i + 1)) == match first_unresolved(
            nodes,
            inputs.subrange(0, i),
        ) {
            Some(p) => Some(p),
            None => if lookup_node(nodes, inputs[i].1) is None {
                Some(inputs[i])
            } else {
                None
            },
        },
{
    assert(inputs.subrange(0, i + 1).drop_last() =~= inputs.subrange(0, i));
    assert(inputs.subrange(0, i + 1).last() == inputs[i]);
}

proof fn lemma_unresolved_extend(
    nodes: Seq<(Seq<char>, NodeSpec)>,
    inputs: Seq<(Seq<char>, Seq<char>)>,
    i: int,
)
    requires
        0 <= i <= inputs.len(),
        first_unresolved(nodes, inputs.subrange(0, i)) is Some,
    ensures
        first_unresolved(nodes, inputs) == first_unresolved(nodes, inputs.subrange(0, i)),
    decreases inputs.len(),
{
    if i < inputs.len() {
        assert(inputs.drop_last().subrange(0, i) =~= inputs.subrange(0, i));
        lemma_unresolved_extend(nodes, inputs.drop_last(), i);
    } else {
        assert(inputs.subrange(0, i) =~= inputs);
    }
}

proof fn lemma_unknown_prefix_step(top: Seq<(String, JsonValue)>, i: int)
    requires
        0 <= i < top.len(),
    ensures
        first_unknown(top.subrange(0, i + 1)) == match first_unknown(top.subrange(0, i)) {
            Some(n) => Some(n),
            None => if top[i].0@ != "nodes"@ && top[i].0@ != "root"@ && top[i].0@ != "version"@ {
                Some(top[i].0@)
            } else {
                None
            },
        },
{
    assert(top.subrange(0, i + 1).drop_last() =~= top.subrange(0, i));
    assert(top.subrange(0, i + 1).last() == top[i]);
}

proof fn lemma_unknown_extend(top: Seq<(String, JsonValue)>, i: int)
    requires
        0 <= i <= top.len(),
        first_unknown(top.subrange(0, i)) is Some,
    ensures
        first_unknown(top) == first_unknown(top.subrange(0, i)),
    decreases top.len(),
{
    if i < top.len() {
        assert(top.drop_last().subrange(0, i) =~= top.subrange(0, i));
        lemma_unknown_extend(top.drop_last(), i);
    } else {
        assert(top.subrange(0, i) =~= top);
    }
}

/// Finds the index of the first member of `o` named `k`.
fn obj_find_index(o: &Vec<(String, JsonValue)>, k: &str) -> (r: Option<usize>)
    ensures
        match r {
            Some(j) => j < o@.len() && key_find(o@, k@) == Some(o@[j as int].1),
            None => key_find(o@, k@) is None,
        },
{
    let mut found: Option<usize> = None;
    let mut i: usize = 0;
    proof {
        assert(o@.subrange(0, 0) =~= Seq::<(String, JsonValue)>::empty());
    }
    while i < o.len()
        invariant
            i <= o@.len(),
            match found {
                Some(j) => j < i && key_find(o@.subrange(0, i as int), k@) == Some(o@[j as int].1),
                None => key_find(o@.subrange(0, i as int), k@) is None,
            },
        decreases o@.len() - i,
    {
        proof {
            lemma_key_prefix_step(o@, i as int, k@);
        }
        if found.is_none() && str_eq(o[i].0.as_str(), k) {
            found = Some(i);
        }
        i = i + 1;
    }
    proof {
        assert(o@.subrange(0, o@.len() as int) =~= o@);
    }
    found
}

/// Finds the node under the first occurrence of a name in the table.
#[verifier::loop_isolation(false)]
fn find_node<'a>(nodes: &'a Vec<(String, Node)>, k: &str) -> (r: Option<&'a Node>)
    ensures
        match r {
            Some(n) => lookup_node(nodes_view(nodes@), k@) == Some(n@),
            None => lookup_node(nodes_view(nodes@), k@) is None,
        },
{
    let ghost nv = nodes_view(nodes@);
    let mut found: Option<usize> = None;
    let mut i: usize = 0;
    proof {
        assert(nv.subrange(0, 0) =~= Seq::<(Seq<char>, NodeSpec)>::empty());
    }
    while i < nodes.len()
        invariant
            i <= nodes@.len(),
            match found {
                Some(j) => j < i && lookup_node(nv.subrange(0, i as int), k@) == Some(
                    nodes@[j as int].1@,
                ),
                None => lookup_node(nv.subrange(0, i as int), k@) is None,
            },
        decreases nodes@.len() - i,
    {
        proof {
            lemma_lookup_prefix_step(nv, i as int, k@);
        }
        if found.is_none() && str_eq(nodes[i].0.as_str(), k) {
            found = Some(i);
        }
        i = i + 1;
    }
    proof {
        assert(nv.subrange(0, nv.len() as int) =~= nv);
    }
    match found {
        Some(j) => Some(&nodes[j].1),
        None => None,
    }
}

fn malformed(text: &str) -> (r: FlakeCheckerError)
    ensures
        r@ == FlakeCheckerErrorSpec::Malformed(text@),
{
    FlakeCheckerError::Malformed(String::from_str(text))
}

fn unknown_field_msg(name: &String) -> (r: String)
    ensures
        r@ == "unknown field `"@ + name@ + "`"@,
{
    let mut s = String::from_str("unknown field `");
    s.append(name.as_str());
    s.append("`");
    s
}

fn root_missing_msg(rname: &String) -> (r: String)
    ensures
        r@ == "the declared root `"@ + rname@ + "` is not in the node table"@,
{
    let mut s = String::from_str("the declared root `");
    s.append(rname.as_str());
    s.append("` is not in the node table");
    s
}

fn not_root_msg(variant: &str) -> (r: String)
    ensures
        r@ == "root node was not a Root node, but was a "@ + variant@ + " node"@,
{
    let mut s = String::from_str("root node was not a Root node, but was a ");
    s.append(variant);
    s.append(" node");
    s
}

fn dangling_msg(name: &String, target: &String) -> (r: String)
    ensures
        r@ == "the root input `"@ + name@ + "` points to `"@ + target@
            + "`, which is not in the node table"@,
{
    let mut s = String::from_str("the root input `");
    s.append(name.as_str());
    s.append("` points to `");
    s.append(target.as_str());
    s.append("`, which is not in the node table");
    s
}

impl FlakeLock {
    /// Builds the graph from a parsed lock-file document: rejects any
    /// top-level member other than the three known fields, collects those
    /// three, classifies every node of the table, and checks that the
    /// declared root is root-shaped and that each of its input pointers
    /// resolves against the table.
    ///
    /// The duplicate-field errors are stated over the document model; a
    /// duplicated member can reach this function only in a hand-built
    /// document, since the text parser behind [`FlakeLock::new`] collapses
    /// a repeated member to its last occurrence first.
    #[verifier::loop_isolation(false)]
    pub fn from_json(j: JsonValue) -> (r: Result<FlakeLock, FlakeCheckerError>)
        ensures
            match r {
                Ok(l) => lock_of(j) == Ok::<FlakeLockSpec, Seq<char>>(l@),
                Err(e) => e@ matches FlakeCheckerErrorSpec::Malformed(m) && lock_of(j)
                    == Err::<FlakeLockSpec, Seq<char>>(m),
            },
    {
        let mut top = match j {
            JsonValue::Obj(o) => o,
            _ => {
                return Err(malformed("expected a JSON object at the top level"));
            },
        };
        let mut i: usize = 0;
        proof {
            assert(top@.subrange(0, 0) =~= Seq::<(String, JsonValue)>::empty());
        }
        while i < top.len()
            invariant
                i <= top@.len(),
                first_unknown(top@.subrange(0, i as int)) is None,
            decreases top@.len() - i,
        {
            proof {
                lemma_unknown_prefix_step(top@, i as int);
            }
            let known = str_eq(top[i].0.as_str(), "nodes") || str_eq(top[i].0.as_str(), "root")
                || str_eq(top[i].0.as_str(), "version");
            if !known {
                proof {
                    lemma_unknown_extend(top@, i as int + 1);
                }
                return Err(FlakeCheckerError::Malformed(unknown_field_msg(&top[i].0)));
            }
            i = i + 1;
        }
        proof {
            assert(top@.subrange(0, top@.len() as int) =~= top@);
        }
        if obj_count(&top, "nodes") > 1 {
            return Err(malformed("duplicate field `nodes`"));
        }
        if obj_count(&top, "root") > 1 {
            return Err(malformed("duplicate field `root`"));
        }
        if obj_count(&top, "version") > 1 {
            return Err(malformed("duplicate field `version`"));
        }
        if obj_count(&top, "nodes") == 0 {
            return Err(malformed("missing field `nodes`"));
        }
        if obj_count(&top, "root") == 0 {
            return Err(malformed("missing field `root`"));
        }
        if obj_count(&top, "version") == 0 {
            return Err(malformed("missing field `version`"));
        }
        let ni = match obj_find_index(&top, "nodes") {
            Some(i) => i,
            None => {
                return Err(malformed("the field `nodes` is not an object"));
            },
        };
        match &top[ni].1 {
            JsonValue::Obj(_) => {},
            _ => {
                return Err(malformed("the field `nodes` is not an object"));
            },
        }
        let rname: String = {
            let fv = obj_find(&top, "root");
            match fv {
                Some(JsonValue::Text(s)) => s.clone(),
                _ => {
                    return Err(malformed("the field `root` is not a string"));
                },
            }
        };
        let ver: i64 = {
            let fv = obj_find(&top, "version");
            match fv {
                Some(JsonValue::Int(n)) => *n,
                _ => {
                    return Err(malformed("the field `version` is not an unsigned integer"));
                },
            }
        };
        if ver < 0 {
            return Err(malformed("the field `version` is not an unsigned integer"));
        }
        let pair = top.remove(ni);
        let mut nobj = match pair.1 {
            JsonValue::Obj(o) => o,
            _ => {
                return Err(malformed("the field `nodes` is not an object"));
            },
        };
        let ghost nobj0 = nobj@;
        let ghost table = nodes_table_of(nobj0);
        let mut nodes: Vec<(String, Node)> = Vec::new();
        while nobj.len() > 0
            invariant
                nodes@.len() + nobj@.len() == nobj0.len(),
                nobj@ == nobj0.subrange(nodes@.len() as int, nobj0.len() as int),
                forall|t: int|
                    0 <= t < nodes@.len() ==> (#[trigger] nodes@[t]).0@ == nobj0[t].0@
                        && nodes@[t].1@ == node_of(nobj0[t].1),
            decreases nobj@.len(),
        {
            let ghost k = nodes@.len() as int;
            let entry = nobj.remove(0);
            let node = classify(entry.1);
            nodes.push((entry.0, node));
            proof {
                assert(nobj@ =~= nobj0.subrange(nodes@.len() as int, nobj0.len() as int));
            }
        }
        proof {
            assert(nodes_view(nodes@) =~= table);
        }
        let rnode = find_node(&nodes, rname.as_str());
        let rn: &RootNode = match rnode {
            None => {
                return Err(FlakeCheckerError::Malformed(root_missing_msg(&rname)));
            },
            Some(Node::Root(rn)) => rn,
            Some(other) => {
                return Err(FlakeCheckerError::Malformed(not_root_msg(other.variant())));
            },
        };
        let mut root: Vec<(String, String)> = Vec::new();
        let mut i: usize = 0;
        proof {
            assert(rn@.inputs.subrange(0, 0) =~= Seq::<(Seq<char>, Seq<char>)>::empty());
        }
        while i < rn.inputs.len()
            invariant
                i <= rn.inputs@.len(),
                root@.len() == i as int,
                forall|t: int|
                    0 <= t < i ==> (#[trigger] root@[t]).0@ == rn.inputs@[t].0@ && root@[t].1@
                        == rn.inputs@[t].1@,
                first_unresolved(table, rn@.inputs.subrange(0, i as int)) is None,
            decreases rn.inputs@.len() - i,
        {
            proof {
                lemma_unresolved_prefix_step(table, rn@.inputs, i as int);
            }
            match find_node(&nodes, rn.inputs[i].1.as_str()) {
                Some(_) => {
                    root.push((rn.inputs[i].0.clone(), rn.inputs[i].1.clone()));
                },
                None => {
                    proof {
                        lemma_unresolved_extend(table, rn@.inputs, i as int + 1);
                    }
                    return Err(
                        FlakeCheckerError::Malformed(
                            dangling_msg(&rn.inputs[i].0, &rn.inputs[i].1),
                        ),
                    );
                },
            }
            i = i + 1;
        }
        proof {
            assert(rn@.inputs.subrange(0, rn@.inputs.len() as int) =~= rn@.inputs);
        }
        let lock = FlakeLock { nodes, root, version: ver as u64 };
        proof {
            assert(lock@.root =~= rn@.inputs);
        }
        Ok(lock)
    }

    /// Loads a lock file from its raw text: parses it as JSON, then builds
    /// the graph. Reading the file from disk is the caller's business; the
    /// text alone determines the result.
    pub fn new(text: &str) -> (r: Result<FlakeLock, FlakeCheckerError>)
        ensures
            match r {
                Ok(l) => json_of(text@) is Some && lock_of(json_of(text@)->Some_0)
                    == Ok::<FlakeLockSpec, Seq<char>>(l@),
                Err(e) => match e@ {
                    FlakeCheckerErrorSpec::Parse(_) => json_of(text@) is None,
                    FlakeCheckerErrorSpec::Malformed(m) => json_of(text@) is Some && lock_of(
                        json_of(text@)->Some_0,
                    ) == Err::<FlakeLockSpec, Seq<char>>(m),
                    FlakeCheckerErrorSpec::Invalid(_) => false,
                },
            },
    {
        match parse_json(text) {
            Ok(v) => FlakeLock::from_json(v),
            Err(m) => Err(FlakeCheckerError::Parse(m)),
        }
    }
}

} // verus!

verus! {

// ---------------------------------------------------------------------------
// Configuration
// ---------------------------------------------------------------------------

/// Which policies to run, and which node names count as the tracked
/// dependency.
#[derive(Debug)]
pub struct FlakeCheckConfig {
    pub check_supported: bool,
    pub check_outdated: bool,
    pub check_owner: bool,
    pub nixpkgs_keys: Vec<String>,
}

/// The models of a sequence of strings.
pub open spec fn strs_view(s: Seq<String>) -> Seq<Seq<char>> {
    Seq::new(s.len(), |i: int| s[i]@)
}

/// The mathematical value of a [`FlakeCheckConfig`].
pub struct FlakeCheckConfigSpec {
    pub check_supported: bool,
    pub check_outdated: bool,
    pub check_owner: bool,
    pub nixpkgs_keys: Seq<Seq<char>>,
}

impl View for FlakeCheckConfig {
    type V = FlakeCheckConfigSpec;

    open spec fn view(&self) -> FlakeCheckConfigSpec {
        FlakeCheckConfigSpec {
            check_supported: self.check_supported,
            check_outdated: self.check_outdated,
            check_owner: self.check_owner,
            nixpkgs_keys: strs_view(self.nixpkgs_keys@),
        }
    }
}

impl Default for FlakeCheckConfig {
    /// All three checks on, tracking the single well-known name `nixpkgs`.
    fn default() -> (r: Self)
        ensures
            r@.check_supported,
            r@.check_outdated,
            r@.check_owner,
            r@.nixpkgs_keys == seq!["nixpkgs"@],
    {
        let mut keys: Vec<String> = Vec::new();
        keys.push(String::from_str("nixpkgs"));
        proof {
            assert(strs_view(keys@) =~= seq!["nixpkgs"@]);
        }
        FlakeCheckConfig {
            check_supported: true,
            check_outdated: true,
            check_owner: true,
            nixpkgs_keys: keys,
        }
    }
}

// ---------------------------------------------------------------------------
// Dependency selection
// ---------------------------------------------------------------------------

/// The pinned source under the first occurrence of a name, if that first
/// occurrence is repo-shaped.
pub open spec fn repo_at(nodes: Seq<(Seq<char>, NodeSpec)>, k: Seq<char>) -> Option<RepoNodeSpec> {
    match lookup_node(nodes, k) {
        Some(NodeSpec::Repo(r)) => Some(r),
        _ => None,
    }
}

/// The requested names with no repo-shaped match in the table, in request
/// order, repeats kept.
pub open spec fn missing_keys(nodes: Seq<(Seq<char>, NodeSpec)>, keys: Seq<Seq<char>>) -> Seq<
    Seq<char>,
>
    decreases keys.len(),
{
    if keys.len() == 0 {
        Seq::empty()
    } else {
        missing_keys(nodes, keys.drop_last()) + (if repo_at(nodes, keys.last()) is None {
            seq![keys.last()]
        } else {
            Seq::<Seq<char>>::empty()
        })
    }
}

/// The selected dependencies: each requested name with a repo-shaped match,
/// paired with that match, in request order, each name once.
pub open spec fn selected_deps(nodes: Seq<(Seq<char>, NodeSpec)>, keys: Seq<Seq<char>>) -> Seq<
    (Seq<char>, RepoNodeSpec),
>
    decreases keys.len(),
{
    if keys.len() == 0 {
        Seq::empty()
    } else {
        let pre = selected_deps(nodes, keys.drop_last());
        if repo_at(nodes, keys.last()) is Some && !keys.drop_last().contains(keys.last()) {
            pre.push((keys.last(), repo_at(nodes, keys.last())->Some_0))
        } else {
            pre
        }
    }
}

/// The parts joined with `", "` between them.
pub open spec fn joined(parts: Seq<Seq<char>>) -> Seq<char>
    decreases parts.len(),
{
    if parts.len() == 0 {
        Seq::empty()
    } else if parts.len() == 1 {
        parts[0]
    } else {
        joined(parts.drop_last()) + ", "@ + parts.last()
    }
}

/// The aggregated selection-failure message, with `key` pluralized by the
/// number of missing names.
pub open spec fn missing_msg(missing: Seq<Seq<char>>) -> Seq<char> {
    "no nixpkgs dependency found for specified "@ + (if missing.len() > 1 {
        "keys"@
    } else {
        "key"@
    }) + ": "@ + joined(missing)
}

proof fn lemma_select_prefix_step(
    nodes: Seq<(Seq<char>, NodeSpec)>,
    keys: Seq<Seq<char>>,
    i: int,
)
    requires
        0 <= i < keys.len(),
    ensures
        selected_deps(nodes, keys.subrange(0, i + 1)) == (if repo_at(nodes, keys[i]) is Some && !keys.subrange(
            0,
            i,
        ).contains(keys[i]) {
            selected_deps(nodes, keys.subrange(0, i)).push(
                (keys[i], repo_at(nodes, keys[i])->Some_0),
            )
        } else {
            selected_deps(nodes, keys.subrange(0, i))
        }),
        missing_keys(nodes, keys.subrange(0, i + 1)) == missing_keys(nodes, keys.subrange(0, i))
            + (if repo_at(nodes, keys[i]) is None {
            seq![keys[i]]
        } else {
            Seq::<Seq<char>>::empty()
        }),
{
    assert(keys.subrange(0, i + 1).drop_last() =~= keys.subrange(0, i));
    assert(keys.subrange(0, i + 1).last() == keys[i]);
}

/// The models of a selection result.
pub open spec fn deps_view(s: Seq<(String, &RepoNode)>) -> Seq<(Seq<char>, RepoNodeSpec)> {
    Seq::new(s.len(), |i: int| (s[i].0@, s[i].1@))
}

/// Joins the parts with `", "`.
#[verifier::loop_isolation(false)]
fn join_parts(parts: &Vec<String>) -> (r: String)
    ensures
        r@ == joined(strs_view(parts@)),
{
    let ghost pv = strs_view(parts@);
    let mut s = String::new();
    let mut i: usize = 0;
    proof {
        assert(pv.subrange(0, 0) =~= Seq::<Seq<char>>::empty());
    }
    while i < parts.len()
        invariant
            i <= parts@.len(),
            s@ == joined(pv.subrange(0, i as int)),
        decreases parts@.len() - i,
    {
        proof {
            assert(pv.subrange(0, i + 1).drop_last() =~= pv.subrange(0, i as int));
            assert(pv.subrange(0, i + 1).last() == pv[i as int]);
            if i > 0 {
                assert(pv.subrange(0, i as int).len() >= 1);
            }
        }
        if i > 0 {
            s.append(", ");
        }
        s.append(parts[i].as_str());
        i = i + 1;
    }
    proof {
        assert(pv.subrange(0, pv.len() as int) =~= pv);
    }
    s
}

impl FlakeLock {
    /// Selects the tracked dependencies: scans the full node table (not just
    /// the root's inputs) for requested names whose first occurrence is a
    /// pinned source. If any requested name has no such match the whole
    /// selection fails with one aggregated message naming every missing key.
    #[verifier::loop_isolation(false)]
    fn nixpkgs_deps<'a>(&'a self, keys: &Vec<String>) -> (r: Result<
        Vec<(String, &'a RepoNode)>,
        FlakeCheckerError,
    >)
        ensures
            match r {
                Ok(deps) => missing_keys(self@.nodes, strs_view(keys@)).len() == 0 && deps_view(
                    deps@,
                ) == selected_deps(self@.nodes, strs_view(keys@)),
                Err(e) => e@ matches FlakeCheckerErrorSpec::Invalid(m) && missing_keys(
                    self@.nodes,
                    strs_view(keys@),
                ).len() > 0 && m == missing_msg(missing_keys(self@.nodes, strs_view(keys@))),
            },
    {
        let ghost kv = strs_view(keys@);
        let mut deps: Vec<(String, &'a RepoNode)> = Vec::new();
        let mut missing: Vec<String> = Vec::new();
        let mut i: usize = 0;
        proof {
            assert(kv.subrange(0, 0) =~= Seq::<Seq<char>>::empty());
            assert(deps_view(deps@) =~= selected_deps(self@.nodes, kv.subrange(0, 0)));
            assert(strs_view(missing@) =~= missing_keys(self@.nodes, kv.subrange(0, 0)));
        }
        while i < keys.len()
            invariant
                i <= keys@.len(),
                deps_view(deps@) == selected_deps(self@.nodes, kv.subrange(0, i as int)),
                strs_view(missing@) == missing_keys(self@.nodes, kv.subrange(0, i as int)),
            decreases keys@.len() - i,
        {
            proof {
                lemma_select_prefix_step(self@.nodes, kv, i as int);
            }
            let k = &keys[i];
            let mut seen = false;
            let mut t: usize = 0;
            while t < i
                invariant
                    t <= i,
                    i < keys@.len(),
                    seen == exists|u: int| 0 <= u < t && kv[u] == k@,
                decreases i - t,
            {
                let eq = str_eq(keys[t].as_str(), k.as_str());
                proof {
                    assert(kv[t as int] == keys@[t as int]@);
                    if eq {
                        assert(kv[t as int] == k@);
                    }
                }
                if eq {
                    seen = true;
                }
                t = t + 1;
            }
            proof {
                let sub = kv.subrange(0, i as int);
                if seen {
                    let u = choose|u: int| 0 <= u < i && kv[u] == k@;
                    assert(sub[u] == k@);
                    assert(sub.contains(k@));
                } else {
                    assert forall|u: int| 0 <= u < sub.len() implies sub[u] != k@ by {
                        assert(sub[u] == kv[u]);
                    }
                    assert(!sub.contains(k@));
                }
            }
            match find_node(&self.nodes, k.as_str()) {
                Some(Node::Repo(b)) => {
                    if !seen {
                        deps.push((k.clone(), &**b));
                        proof {
                            assert(deps_view(deps@) =~= selected_deps(
                                self@.nodes,
                                kv.subrange(0, i as int + 1),
                            ));
                        }
                    }
                },
                _ => {
                    missing.push(k.clone());
                    proof {
                        assert(strs_view(missing@) =~= missing_keys(
                            self@.nodes,
                            kv.subrange(0, i as int + 1),
                        ));
                    }
                },
            }
            i = i + 1;
        }
        proof {
            assert(kv.subrange(0, kv.len() as int) =~= kv);
        }
        if missing.len() > 0 {
            let mut msg = String::from_str("no nixpkgs dependency found for specified ");
            if missing.len() > 1 {
                msg.append("keys");
            } else {
                msg.append("key");
            }
            msg.append(": ");
            let joined_names = join_parts(&missing);
            msg.append(joined_names.as_str());
            return Err(FlakeCheckerError::Invalid(msg));
        }
        Ok(deps)
    }
}

} // verus!

verus! {

// ---------------------------------------------------------------------------
// Policy evaluation
// ---------------------------------------------------------------------------

/// The allow-list of branch and tag names a pin may float on.
pub open spec fn allowed_ref(r: Seq<char>) -> bool {
    ||| r == "nixos-22.11"@
    ||| r == "nixos-22.11-small"@
    ||| r == "nixos-23.05"@
    ||| r == "nixos-23.05-small"@
    ||| r == "nixos-unstable"@
    ||| r == "nixos-unstable-small"@
    ||| r == "nixpkgs-22.11-darwin"@
    ||| r == "nixpkgs-23.05-darwin"@
    ||| r == "nixpkgs-unstable"@
}

/// Whether `r` is on the allow-list of branch and tag names.
pub fn is_allowed_ref(r: &str) -> (b: bool)
    ensures
        b == allowed_ref(r@),
{
    str_eq(r, "nixos-22.11") || str_eq(r, "nixos-22.11-small") || str_eq(r, "nixos-23.05")
        || str_eq(r, "nixos-23.05-small") || str_eq(r, "nixos-unstable") || str_eq(
        r,
        "nixos-unstable-small",
    ) || str_eq(r, "nixpkgs-22.11-darwin") || str_eq(r, "nixpkgs-23.05-darwin") || str_eq(
        r,
        "nixpkgs-unstable",
    )
}

/// What a text lowercases to. The result depends on the characters alone,
/// so the same owner name always folds the same way.
pub uninterp spec fn lower_of(s: Seq<char>) -> Seq<char>;

/// Relies on `str::to_lowercase`: the result is a function of the
/// characters of `s` alone.
#[verifier::external_body]
fn lowercase(s: &str) -> (r: String)
    ensures
        r@ == lower_of(s@),
{
    s.to_lowercase()
}

/// Relies on `std::time::SystemTime::now`: reads the wall clock as whole
/// seconds since the Unix epoch. Every outcome maps to a defined value — a
/// clock before the epoch reads as the epoch, one beyond the `i64` range as
/// `i64::MAX` — so the read cannot abort, where a wall-clock-to-timestamp
/// conversion that unwraps would. Nothing is assumed of the value; every
/// caller states what holds whatever came back.
#[verifier::external_body]
fn now_timestamp() -> i64 {
    match std::time::SystemTime::now().duration_since(std::time::UNIX_EPOCH) {
        Ok(d) => i64::try_from(d.as_secs()).unwrap_or(i64::MAX),
        Err(_) => 0,
    }
}

/// Whole days from the pin's last-modified time to "now", truncated toward
/// zero as seconds-based duration arithmetic truncates.
pub open spec fn days_old(now: int, last_modified: int) -> int {
    if now >= last_modified {
        (now - last_modified) / 86400
    } else {
        -((last_modified - now) / 86400)
    }
}

/// The violations one selected dependency contributes, in the fixed check
/// order: allowed-ref, then staleness, then owner.
///
/// - The ref check applies only when the pin floats on a ref at all; a ref
///   off the allow-list yields a `Disallowed` violation carrying the ref.
/// - The staleness check flags a pin strictly older than [`MAX_DAYS`] whole
///   days, carrying the truncated day count.
/// - The owner check compares the requested owner case-insensitively against
///   `nixos` and carries the owner in its original casing on mismatch.
pub open spec fn node_issues(
    name: Seq<char>,
    repo: RepoNodeSpec,
    cfg: FlakeCheckConfigSpec,
    now: int,
) -> Seq<IssueSpec> {
    (if cfg.check_supported && repo.original.git_ref is Some && !allowed_ref(
        repo.original.git_ref->Some_0,
    ) {
        seq![
            IssueSpec {
                dependency: name,
                kind: IssueKind::Disallowed,
                details: IssueDetailsSpec::Disallowed {
                    input: name,
                    git_ref: repo.original.git_ref->Some_0,
                },
            },
        ]
    } else {
        Seq::<IssueSpec>::empty()
    }) + (if cfg.check_outdated && days_old(now, repo.locked.last_modified) > MAX_DAYS as int {
        seq![
            IssueSpec {
                dependency: name,
                kind: IssueKind::Outdated,
                details: IssueDetailsSpec::Outdated {
                    input: name,
                    num_days_old: days_old(now, repo.locked.last_modified),
                },
            },
        ]
    } else {
        Seq::<IssueSpec>::empty()
    }) + (if cfg.check_owner && lower_of(repo.original.owner) != "nixos"@ {
        seq![
            IssueSpec {
                dependency: name,
                kind: IssueKind::NonUpstream,
                details: IssueDetailsSpec::NonUpstream { input: name, owner: repo.original.owner },
            },
        ]
    } else {
        Seq::<IssueSpec>::empty()
    })
}

/// The violations of all selected dependencies, in selection order.
pub open spec fn issues_for(
    deps: Seq<(Seq<char>, RepoNodeSpec)>,
    cfg: FlakeCheckConfigSpec,
    now: int,
) -> Seq<IssueSpec>
    decreases deps.len(),
{
    if deps.len() == 0 {
        Seq::empty()
    } else {
        issues_for(deps.drop_last(), cfg, now) + node_issues(
            deps.last().0,
            deps.last().1,
            cfg,
            now,
        )
    }
}

/// What a whole check run yields at a given clock reading: the selection
/// failure's message, or the ordered violation list.
pub open spec fn check_spec(
    lock: FlakeLockSpec,
    cfg: FlakeCheckConfigSpec,
    now: int,
) -> Result<Seq<IssueSpec>, Seq<char>> {
    if missing_keys(lock.nodes, cfg.nixpkgs_keys).len() > 0 {
        Err(missing_msg(missing_keys(lock.nodes, cfg.nixpkgs_keys)))
    } else {
        Ok(issues_for(selected_deps(lock.nodes, cfg.nixpkgs_keys), cfg, now))
    }
}

/// Runs the enabled checks on one selected dependency, appending its
/// violations in the fixed check order.
#[verifier::loop_isolation(false)]
fn check_node(
    name: &String,
    repo: &RepoNode,
    config: &FlakeCheckConfig,
    now: i64,
    issues: &mut Vec<Issue>,
)
    ensures
        crate::issue::issues_view(final(issues)@) == crate::issue::issues_view(old(issues)@)
            + node_issues(name@, repo@, config@, now as int),
{
    let ghost base = issues@;
    let ghost part = node_issues(name@, repo@, config@, now as int);
    if config.check_supported {
        match &repo.original.git_ref {
            Some(r) => {
                if !is_allowed_ref(r.as_str()) {
                    issues.push(
                        Issue {
                            dependency: name.clone(),
                            kind: IssueKind::Disallowed,
                            details: IssueDetails::Disallowed {
                                input: name.clone(),
                                git_ref: r.clone(),
                            },
                        },
                    );
                }
            },
            None => {},
        }
    }
    if config.check_outdated {
        if now >= repo.locked.last_modified {
            let diff_wide: i128 = (now as i128) - (repo.locked.last_modified as i128);
            proof {
                assert(0 <= diff_wide < 0x10000000000000000i128);
            }
            let diff: u64 = diff_wide as u64;
            let days_wide: u64 = diff / 86400;
            proof {
                assert(days_wide <= diff);
                assert(days_wide as int == days_old(now as int, repo.locked.last_modified as int));
            }
            let days: i64 = days_wide as i64;
            if days > MAX_DAYS {
                issues.push(
                    Issue {
                        dependency: name.clone(),
                        kind: IssueKind::Outdated,
                        details: IssueDetails::Outdated {
                            input: name.clone(),
                            num_days_old: days,
                        },
                    },
                );
            }
        } else {
            proof {
                let lm = repo.locked.last_modified as int;
                assert((lm - now as int) / 86400 >= 0);
                assert(days_old(now as int, lm) <= 0);
            }
        }
    }
    if config.check_owner {
        let low = lowercase(repo.original.owner.as_str());
        let upstream = String::from_str("nixos");
        if !(low == upstream) {
            issues.push(
                Issue {
                    dependency: name.clone(),
                    kind: IssueKind::NonUpstream,
                    details: IssueDetails::NonUpstream {
                        input: name.clone(),
                        owner: repo.original.owner.clone(),
                    },
                },
            );
        }
    }
    proof {
        assert(crate::issue::issues_view(issues@) =~= crate::issue::issues_view(base) + part);
    }
}

/// Runs the configured checks against a loaded lock file at a given clock
/// reading, in seconds since the epoch. The result is fully determined by
/// the lock file, the configuration and the clock reading.
#[verifier::loop_isolation(false)]
pub fn check_flake_lock_at(
    flake_lock: &FlakeLock,
    config: &FlakeCheckConfig,
    now: i64,
) -> (r: Result<Vec<Issue>, FlakeCheckerError>)
    ensures
        match r {
            Ok(v) => check_spec(flake_lock@, config@, now as int) == Ok::<
                Seq<IssueSpec>,
                Seq<char>,
            >(crate::issue::issues_view(v@)),
            Err(e) => e@ matches FlakeCheckerErrorSpec::Invalid(m) && check_spec(
                flake_lock@,
                config@,
                now as int,
            ) == Err::<Seq<IssueSpec>, Seq<char>>(m),
        },
{
    let deps = match flake_lock.nixpkgs_deps(&config.nixpkgs_keys) {
        Ok(d) => d,
        Err(e) => {
            return Err(e);
        },
    };
    let ghost dv = deps_view(deps@);
    let mut issues: Vec<Issue> = Vec::new();
    let mut i: usize = 0;
    proof {
        assert(dv.subrange(0, 0) =~= Seq::<(Seq<char>, RepoNodeSpec)>::empty());
        assert(crate::issue::issues_view(issues@) =~= Seq::<IssueSpec>::empty());
    }
    while i < deps.len()
        invariant
            i <= deps@.len(),
            crate::issue::issues_view(issues@) == issues_for(
                dv.subrange(0, i as int),
                config@,
                now as int,
            ),
        decreases deps@.len() - i,
    {
        proof {
            assert(dv.subrange(0, i + 1).drop_last() =~= dv.subrange(0, i as int));
            assert(dv.subrange(0, i + 1).last() == dv[i as int]);
        }
        check_node(&deps[i].0, deps[i].1, config, now, &mut issues);
        i = i + 1;
    }
    proof {
        assert(dv.subrange(0, dv.len() as int) =~= dv);
    }
    Ok(issues)
}

/// Runs the configured checks against a loaded lock file at the current
/// wall-clock time. Whatever the clock read, the result is what
/// [`check_flake_lock_at`] yields at some clock reading; with the staleness
/// check disabled the reading does not influence the result at all.
pub fn check_flake_lock(flake_lock: &FlakeLock, config: &FlakeCheckConfig) -> (r: Result<
    Vec<Issue>,
    FlakeCheckerError,
>)
    ensures
        exists|now: int|
            #![trigger check_spec(flake_lock@, config@, now)]
            match r {
                Ok(v) => check_spec(flake_lock@, config@, now) == Ok::<
                    Seq<IssueSpec>,
                    Seq<char>,
                >(crate::issue::issues_view(v@)),
                Err(e) => e@ matches FlakeCheckerErrorSpec::Invalid(m) && check_spec(
                    flake_lock@,
                    config@,
                    now,
                ) == Err::<Seq<IssueSpec>, Seq<char>>(m),
            },
        !config@.check_outdated ==> match r {
            Ok(v) => check_spec(flake_lock@, config@, 0) == Ok::<Seq<IssueSpec>, Seq<char>>(
                crate::issue::issues_view(v@),
            ),
            Err(e) => e@ matches FlakeCheckerErrorSpec::Invalid(m) && check_spec(
                flake_lock@,
                config@,
                0,
            ) == Err::<Seq<IssueSpec>, Seq<char>>(m),
        },
{
    let now = now_timestamp();
    let r = check_flake_lock_at(flake_lock, config, now);
    proof {
        if !config@.check_outdated {
            lemma_clock_irrelevant_without_staleness(flake_lock@, config@, now as int, 0);
        }
    }
    proof {
        let witness: int = now as int;
        assert(match r {
            Ok(v) => check_spec(flake_lock@, config@, witness) == Ok::<
                Seq<IssueSpec>,
                Seq<char>,
            >(crate::issue::issues_view(v@)),
            Err(e) => e@ matches FlakeCheckerErrorSpec::Invalid(m) && check_spec(
                flake_lock@,
                config@,
                witness,
            ) == Err::<Seq<IssueSpec>, Seq<char>>(m),
        });
    }
    r
}

} // verus!

verus! {

// ---------------------------------------------------------------------------
// Laws
// ---------------------------------------------------------------------------

/// A dependency on which every check passes: any ref it floats on is on the
/// allow-list, it is at most [`MAX_DAYS`] whole days old, and its requested
/// owner folds to `nixos`.
pub open spec fn compliant(repo: RepoNodeSpec, now: int) -> bool {
    &&& (repo.original.git_ref is Some ==> allowed_ref(repo.original.git_ref->Some_0))
    &&& days_old(now, repo.locked.last_modified) <= MAX_DAYS as int
    &&& lower_of(repo.original.owner) == "nixos"@
}

/// Law: loading the same lock-file text twice yields the same graph model,
/// and the two graphs therefore produce identical violation lists under
/// identical configuration and clock reading.
pub proof fn lemma_load_deterministic(
    text: Seq<char>,
    l1: FlakeLockSpec,
    l2: FlakeLockSpec,
    cfg: FlakeCheckConfigSpec,
    now: int,
)
    requires
        json_of(text) is Some,
        lock_of(json_of(text)->Some_0) == Ok::<FlakeLockSpec, Seq<char>>(l1),
        lock_of(json_of(text)->Some_0) == Ok::<FlakeLockSpec, Seq<char>>(l2),
    ensures
        l1 == l2,
        check_spec(l1, cfg, now) == check_spec(l2, cfg, now),
{
}

proof fn lemma_issues_for_compliant(deps: Seq<(Seq<char>, RepoNodeSpec)>, cfg: FlakeCheckConfigSpec, now: int)
    requires
        forall|i: int| 0 <= i < deps.len() ==> compliant((#[trigger] deps[i]).1, now),
    ensures
        issues_for(deps, cfg, now) == Seq::<IssueSpec>::empty(),
    decreases deps.len(),
{
    if deps.len() > 0 {
        lemma_issues_for_compliant(deps.drop_last(), cfg, now);
        assert(node_issues(deps.last().0, deps.last().1, cfg, now) =~= Seq::<IssueSpec>::empty());
        assert(issues_for(deps, cfg, now) =~= Seq::<IssueSpec>::empty());
    }
}

/// Law: no false positives. When selection succeeds and every selected
/// dependency is compliant, a check run yields the empty violation list,
/// whichever of the checks are enabled.
pub proof fn lemma_no_false_positives(lock: FlakeLockSpec, cfg: FlakeCheckConfigSpec, now: int)
    requires
        missing_keys(lock.nodes, cfg.nixpkgs_keys).len() == 0,
        forall|i: int|
            0 <= i < selected_deps(lock.nodes, cfg.nixpkgs_keys).len() ==> compliant(
                (#[trigger] selected_deps(lock.nodes, cfg.nixpkgs_keys)[i]).1,
                now,
            ),
    ensures
        check_spec(lock, cfg, now) == Ok::<Seq<IssueSpec>, Seq<char>>(Seq::empty()),
{
    lemma_issues_for_compliant(selected_deps(lock.nodes, cfg.nixpkgs_keys), cfg, now);
}

proof fn lemma_issues_for_no_clock(deps: Seq<(Seq<char>, RepoNodeSpec)>, cfg: FlakeCheckConfigSpec, n1: int, n2: int)
    requires
        !cfg.check_outdated,
    ensures
        issues_for(deps, cfg, n1) == issues_for(deps, cfg, n2),
    decreases deps.len(),
{
    if deps.len() > 0 {
        lemma_issues_for_no_clock(deps.drop_last(), cfg, n1, n2);
        assert(node_issues(deps.last().0, deps.last().1, cfg, n1) =~= node_issues(
            deps.last().0,
            deps.last().1,
            cfg,
            n2,
        ));
    }
}

/// Law: with the staleness check disabled, the clock reading does not
/// influence a check run at all.
pub proof fn lemma_clock_irrelevant_without_staleness(
    lock: FlakeLockSpec,
    cfg: FlakeCheckConfigSpec,
    n1: int,
    n2: int,
)
    requires
        !cfg.check_outdated,
    ensures
        check_spec(lock, cfg, n1) == check_spec(lock, cfg, n2),
{
    lemma_issues_for_no_clock(selected_deps(lock.nodes, cfg.nixpkgs_keys), cfg, n1, n2);
}

} // verus!
