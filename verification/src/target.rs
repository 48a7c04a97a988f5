//! Task targets: a scope and a task identifier, written `scope:task`.

use vstd::prelude::*;
use vstd::string::StringExecFns;
use crate::node_task::{first_pos, is_first_pos};
use crate::text::{chars_of, string_of, vec_skip, vec_take};

verus! {

/// Which projects a target applies to.
#[derive(Clone, Debug, PartialEq, Eq)]
pub enum TargetScope {
    /// `:task`, every project.
    All,
    /// `^:task`, the dependencies of the project.
    Deps,
    /// `~:task`, the project itself.
    OwnSelf,
    /// `id:task`, one project.
    Project(String),
    /// `#tag:task`, projects with a tag.
    Tag(String),
}

/// A target of a task.
#[derive(Clone, Debug, PartialEq, Eq)]
pub struct Target {
    pub id: String,
    pub scope: TargetScope,
    pub task_id: String,
}

/// Why a target could not be parsed.
#[derive(Clone, Debug, PartialEq, Eq)]
pub enum TargetError {
    /// The target `:` names every task of every project.
    TooWild,
    /// The text is not a target.
    InvalidFormat(String),
}

pub enum ScopeView {
    All,
    Deps,
    OwnSelf,
    Project(Seq<char>),
    Tag(Seq<char>),
}

pub struct TargetView {
    pub id: Seq<char>,
    pub scope: ScopeView,
    pub task_id: Seq<char>,
}

pub enum TargetErrorView {
    TooWild,
    InvalidFormat(Seq<char>),
}

impl View for TargetScope {
    type V = ScopeView;

    open spec fn view(&self) -> ScopeView {
        match self {
            TargetScope::All => ScopeView::All,
            TargetScope::Deps => ScopeView::Deps,
            TargetScope::OwnSelf => ScopeView::OwnSelf,
            TargetScope::Project(p) => ScopeView::Project(p@),
            TargetScope::Tag(t) => ScopeView::Tag(t@),
        }
    }
}

impl DeepView for Target {
    type V = TargetView;

    open spec fn deep_view(&self) -> TargetView {
        TargetView { id: self.id@, scope: self.scope@, task_id: self.task_id@ }
    }
}

impl View for TargetError {
    type V = TargetErrorView;

    open spec fn view(&self) -> TargetErrorView {
        match self {
            TargetError::TooWild => TargetErrorView::TooWild,
            TargetError::InvalidFormat(s) => TargetErrorView::InvalidFormat(s@),
        }
    }
}

/// Characters of identifiers after the first: `0-9 A-Z a-z / . _ -`.
pub open spec fn is_id_rest_char(c: char) -> bool {
    ('0' <= c && c <= '9') || ('A' <= c && c <= 'Z') || ('a' <= c && c <= 'z') || c == '/' || c
        == '.' || c == '_' || c == '-'
}

/// Characters that may start a project scope: `A-Z a-z @ # _`.
pub open spec fn is_id_first_char(c: char) -> bool {
    ('A' <= c && c <= 'Z') || ('a' <= c && c <= 'z') || c == '@' || c == '#' || c == '_'
}

/// A task identifier: one or more identifier characters.
pub open spec fn is_task_id(s: Seq<char>) -> bool {
    s.len() > 0 && forall|i: int| 0 <= i < s.len() ==> is_id_rest_char(#[trigger] s[i])
}

/// A scope written before `:` that names projects or a tag.
pub open spec fn is_project_scope(s: Seq<char>) -> bool {
    s.len() > 0 && is_id_first_char(s[0]) && forall|i: int|
        1 <= i < s.len() ==> is_id_rest_char(#[trigger] s[i])
}

/// How a target is written for a scope and a task.
pub open spec fn spec_format(scope: ScopeView, task: Seq<char>) -> Seq<char> {
    match scope {
        ScopeView::All => ":"@ + task,
        ScopeView::Deps => "^:"@ + task,
        ScopeView::OwnSelf => "~:"@ + task,
        ScopeView::Project(p) => p + ":"@ + task,
        ScopeView::Tag(t) => "#"@ + t + ":"@ + task,
    }
}

/// The scope written as `s`.
pub open spec fn spec_scope(s: Seq<char>) -> ScopeView {
    if s.len() == 0 {
        ScopeView::All
    } else if s == "^"@ {
        ScopeView::Deps
    } else if s == "~"@ {
        ScopeView::OwnSelf
    } else if s[0] == '#' {
        ScopeView::Tag(s.drop_first())
    } else {
        ScopeView::Project(s)
    }
}

/// What parsing a target gives. Text without `:` is a task of the project
/// itself; otherwise the text is `scope:task` with one `:`, where the scope
/// is empty, `^`, `~`, or a project (or `#tag`) identifier.
pub open spec fn spec_parse_target(s: Seq<char>) -> Result<TargetView, TargetErrorView> {
    if s == ":"@ {
        Err(TargetErrorView::TooWild)
    } else if !s.contains(':') {
        spec_new_self(s)
    } else {
        let p = first_pos(s, ':');
        let scope = s.take(p);
        let task = s.skip(p + 1);
        if (scope.len() == 0 || scope == "^"@ || scope == "~"@ || is_project_scope(scope))
            && is_task_id(task) {
            let sc = spec_scope(scope);
            Ok(TargetView { id: spec_format(sc, task), scope: sc, task_id: task })
        } else {
            Err(TargetErrorView::InvalidFormat(s))
        }
    }
}

/// A target for a task of the project itself.
pub open spec fn spec_new_self(task: Seq<char>) -> Result<TargetView, TargetErrorView> {
    if is_task_id(task) {
        Ok(TargetView { id: spec_format(ScopeView::OwnSelf, task), scope: ScopeView::OwnSelf, task_id: task })
    } else {
        Err(TargetErrorView::InvalidFormat(task))
    }
}

pub open spec fn target_result_view(r: Result<Target, TargetError>) -> Result<TargetView, TargetErrorView> {
    match r {
        Ok(t) => Ok(t.deep_view()),
        Err(e) => Err(e@),
    }
}

fn id_rest_char(c: char) -> (r: bool)
    ensures
        r == is_id_rest_char(c),
{
    ('0' <= c && c <= '9') || ('A' <= c && c <= 'Z') || ('a' <= c && c <= 'z') || c == '/' || c
        == '.' || c == '_' || c == '-'
}

fn all_rest_chars(v: &Vec<char>, from: usize) -> (r: bool)
    ensures
        r == forall|i: int| from <= i < v@.len() ==> is_id_rest_char(#[trigger] v@[i]),
{
    let mut i: usize = from;
    while i < v.len()
        invariant
            from <= i,
            forall|k: int| from <= k < i && k < v@.len() ==> is_id_rest_char(#[trigger] v@[k]),
        decreases v.len() - i,
    {
        if !id_rest_char(v[i]) {
            assert(!is_id_rest_char(v@[i as int]));
            return false;
        }
        i = i + 1;
    }
    true
}

fn task_id_ok(v: &Vec<char>) -> (r: bool)
    ensures
        r == is_task_id(v@),
{
    v.len() > 0 && all_rest_chars(v, 0)
}

fn format_target(scope: &TargetScope, task: &str) -> (r: String)
    ensures
        r@ == spec_format(scope@, task@),
{
    match scope {
        TargetScope::All => ":".to_owned().concat(task),
        TargetScope::Deps => "^:".to_owned().concat(task),
        TargetScope::OwnSelf => "~:".to_owned().concat(task),
        TargetScope::Project(p) => p.clone().concat(":").concat(task),
        TargetScope::Tag(t) => "#".to_owned().concat(t.as_str()).concat(":").concat(task),
    }
}

impl Target {
    /// The target of a task of the project itself.
    pub fn new_self(task_id: &str) -> (r: Result<Target, TargetError>)
        ensures
            target_result_view(r) == spec_new_self(task_id@),
    {
        if !task_id_ok(&chars_of(task_id)) {
            return Err(TargetError::InvalidFormat(task_id.to_owned()));
        }
        let scope = TargetScope::OwnSelf;
        let id = format_target(&scope, task_id);
        Ok(Target { id, scope, task_id: task_id.to_owned() })
    }

    /// Parses a target.
    pub fn parse(target_id: &str) -> (r: Result<Target, TargetError>)
        ensures
            target_result_view(r) == spec_parse_target(target_id@),
    {
        let v = chars_of(target_id);
        proof {
            reveal_strlit(":");
            reveal_strlit("^");
            reveal_strlit("~");
            reveal_strlit("#");
        }
        if v.len() == 1 && v[0] == ':' {
            assert(v@ =~= ":"@);
            return Err(TargetError::TooWild);
        }
        assert(v@ != ":"@ ==> !(v.len() == 1 && v@[0] == ':')) by {
            if v.len() == 1 && v@[0] == ':' {
                assert(v@ =~= ":"@);
            }
        }
        let p = crate::node_task::find_char_pub(&v, ':');
        if p == v.len() {
            assert(!v@.contains(':')) by {
                if v@.contains(':') {
                    let k = choose|k: int| 0 <= k < v@.len() && v@[k] == ':';
                    assert(v@[k] != ':');
                }
            }
            return Self::new_self(target_id);
        }
        assert(v@.contains(':'));
        let scope_chars = vec_take(&v, p);
        let task_chars = vec_skip(&v, p + 1);
        let plain = scope_chars.len() == 0 || (scope_chars.len() == 1 && (scope_chars[0] == '^'
            || scope_chars[0] == '~'));
        let project = scope_chars.len() > 0 && (('A' <= scope_chars[0] && scope_chars[0] <= 'Z')
            || ('a' <= scope_chars[0] && scope_chars[0] <= 'z') || scope_chars[0] == '@'
            || scope_chars[0] == '#' || scope_chars[0] == '_') && all_rest_chars(&scope_chars, 1);
        assert(plain == (scope_chars@.len() == 0 || scope_chars@ == "^"@ || scope_chars@ == "~"@))
            by {
            if scope_chars@.len() == 1 && scope_chars@[0] == '^' {
                assert(scope_chars@ =~= "^"@);
            }
            if scope_chars@.len() == 1 && scope_chars@[0] == '~' {
                assert(scope_chars@ =~= "~"@);
            }
        }
        if !((plain || project) && task_id_ok(&task_chars)) {
            return Err(TargetError::InvalidFormat(target_id.to_owned()));
        }
        let scope = if scope_chars.len() == 0 {
            TargetScope::All
        } else if scope_chars.len() == 1 && scope_chars[0] == '^' {
            TargetScope::Deps
        } else if scope_chars.len() == 1 && scope_chars[0] == '~' {
            TargetScope::OwnSelf
        } else if scope_chars[0] == '#' {
            TargetScope::Tag(string_of(&vec_skip(&scope_chars, 1)))
        } else {
            TargetScope::Project(string_of(&scope_chars))
        };
        assert(scope@ == spec_scope(scope_chars@)) by {
            if scope_chars@.len() > 0 && scope_chars@[0] == '#' {
                assert(scope_chars@.skip(1) =~= scope_chars@.drop_first());
                assert(scope_chars@ != "^"@);
                assert(scope_chars@ != "~"@);
            }
        }
        let task = string_of(&task_chars);
        let id = format_target(&scope, task.as_str());
        Ok(Target { id, scope, task_id: task })
    }
}

} // verus!

verus! {

proof fn lemma_first_pos_exists(s: Seq<char>, c: char) -> (p: int)
    ensures
        is_first_pos(s, c, p),
        first_pos(s, c) == p,
    decreases s.len(),
{
    if s.len() == 0 || s[0] == c {
        crate::node_task::lemma_first_pos(s, c, 0);
        0
    } else {
        let q = lemma_first_pos_exists(s.drop_first(), c);
        assert forall|k: int| 0 <= k < q + 1 implies #[trigger] s[k] != c by {
            if k > 0 {
                assert(s[k] == s.drop_first()[k - 1]);
            }
        }
        crate::node_task::lemma_first_pos(s, c, q + 1);
        q + 1
    }
}

/// A scope followed by `:` and a task splits back at that `:`.
proof fn lemma_split_scope(scope: Seq<char>, task: Seq<char>)
    requires
        !scope.contains(':'),
        !task.contains(':'),
    ensures
        (scope + ":"@ + task).contains(':'),
        first_pos(scope + ":"@ + task, ':') == scope.len(),
        (scope + ":"@ + task).take(scope.len() as int) == scope,
        (scope + ":"@ + task).skip(scope.len() as int + 1) == task,
{
    reveal_strlit(":");
    let s = scope + ":"@ + task;
    assert(s[scope.len() as int] == ':');
    assert forall|k: int| 0 <= k < scope.len() implies #[trigger] s[k] != ':' by {
        assert(s[k] == scope[k]);
        if scope[k] == ':' {
            assert(scope.contains(':'));
        }
    }
    crate::node_task::lemma_first_pos(s, ':', scope.len() as int);
    assert(s.take(scope.len() as int) =~= scope);
    assert(s.skip(scope.len() as int + 1) =~= task);
}

proof fn lemma_id_chars_no_colon(s: Seq<char>)
    requires
        forall|i: int| 0 <= i < s.len() ==> is_id_rest_char(#[trigger] s[i]),
    ensures
        !s.contains(':'),
{
    if s.contains(':') {
        let k = choose|k: int| 0 <= k < s.len() && s[k] == ':';
        assert(is_id_rest_char(s[k]));
    }
}

/// A parsed target reads back as itself: parsing the text of a target that
/// parsing gave yields that same target.
pub proof fn lemma_parse_round_trip(s: Seq<char>)
    requires
        spec_parse_target(s) is Ok,
    ensures
        spec_parse_target(spec_parse_target(s)->Ok_0.id) == spec_parse_target(s),
{
    reveal_strlit(":");
    reveal_strlit("^");
    reveal_strlit("~");
    reveal_strlit("#");
    reveal_strlit("^:");
    reveal_strlit("~:");
    let t = spec_parse_target(s)->Ok_0;
    if !s.contains(':') {
        // a task of the project itself: written `~:task`
        assert(is_task_id(s));
        lemma_id_chars_no_colon(s);
        lemma_split_scope("~"@, s);
        assert("~:"@ + s =~= "~"@ + ":"@ + s);
        assert(t.id == "~"@ + ":"@ + s);
        assert(t.id != ":"@) by {
            assert(t.id.len() >= 2);
        }
        assert(t.id.contains(':'));
        assert(first_pos(t.id, ':') == 1);
        assert(t.id.take(1) == "~"@);
        assert(t.id.skip(2) == s);
        assert("~"@[0] == '~' && "^"@[0] == '^');
        assert("~"@ != "^"@);
        assert(spec_scope("~"@) == ScopeView::OwnSelf);
        assert(spec_parse_target(t.id) == spec_parse_target(s));
    } else {
        let p = lemma_first_pos_exists(s, ':');
        let scope = s.take(p);
        let task = s.skip(p + 1);
        assert(p < s.len()) by {
            let w = choose|w: int| 0 <= w < s.len() && s[w] == ':';
            if p >= s.len() {
                assert(s[w] != ':');
            }
        }
        assert(s =~= scope + ":"@ + task);
        let sc = spec_scope(scope);
        if scope.len() == 0 {
            assert(spec_format(sc, task) =~= scope + ":"@ + task);
        } else if scope == "^"@ {
            assert(spec_format(sc, task) =~= scope + ":"@ + task);
        } else if scope == "~"@ {
            assert(spec_format(sc, task) =~= scope + ":"@ + task);
        } else if scope[0] == '#' {
            assert(scope =~= "#"@ + scope.drop_first());
            assert(spec_format(sc, task) =~= scope + ":"@ + task);
        } else {
            assert(spec_format(sc, task) =~= scope + ":"@ + task);
        }
        assert(t.id == s);
    }
}

} // verus!
