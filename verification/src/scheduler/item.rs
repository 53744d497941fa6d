//! The items a connector hands out, and what they may put into a task.

use vstd::prelude::*;
use vstd::string::*;

use crate::task::DispatchSpec;
use crate::text;

verus! {

/// A placeholder of a template and the text it takes from an item, or why it has
/// none.
#[derive(Debug)]
pub struct Placeholder {
    /// `item.title`
    pub path: String,
    pub value: Result<String, String>,
}

/// The placeholders of a template, or what is wrong with the template.
#[derive(Debug)]
pub struct Places {
    pub found: Result<Vec<Placeholder>, String>,
}

/// An item, with what the job's `repo` and `branch` would take from it.
#[derive(Debug)]
pub struct Item {
    /// Names the item for its job; an item whose key was seen is not new.
    pub key: String,
    /// The placeholders of the job's `repo`, if it has one.
    pub repo: Option<Places>,
    /// The placeholders of the job's `branch`, if it has one.
    pub branch: Option<Places>,
}

/// Why a value is unsafe in a path.
pub open spec fn path_problem(value: Seq<char>) -> Option<Seq<char>> {
    if value.contains('/') || value.contains('\\') {
        Some("contains a path separator"@)
    } else if text::holds_text(value, ".."@) {
        Some("contains \"..\""@)
    } else if value.len() > 0 && value[0] == '-' {
        Some("starts with '-'"@)
    } else if exists|i: int| 0 <= i < value.len() && text::control(#[trigger] value[i]) {
        Some("contains a control character"@)
    } else {
        None
    }
}

/// Why `value`, substituted from an item into `repo` or `branch`, is unsafe:
/// it would climb or cross directories, read as an option to git or ssh, or
/// carry control characters to the machine's shell.
pub fn path_value_problem(value: &str) -> (r: Option<&'static str>)
    ensures
        match (r, path_problem(value@)) {
            (Some(why), Some(text)) => why@ == text,
            (None, None) => true,
            _ => false,
        },
{
    if text::contains_char(value, '/') || text::contains_char(value, '\\') {
        return Some("contains a path separator");
    }
    if text::contains_text(value, "..") {
        return Some("contains \"..\"");
    }
    let v = text::chars_of(value);
    if v.len() > 0 && v[0] == '-' {
        return Some("starts with '-'");
    }
    let mut i: usize = 0;
    while i < v.len()
        invariant
            i <= v@.len(),
            v@ == value@,
            !value@.contains('/') && !value@.contains('\\'),
            !text::holds_text(value@, ".."@),
            value@.len() > 0 ==> value@[0] != '-',
            forall|k: int| 0 <= k < i ==> !text::control(#[trigger] v@[k]),
        decreases v@.len() - i,
    {
        if v[i].is_control() {
            assert(text::control(value@[i as int]));
            return Some("contains a control character");
        }
        i = i + 1;
    }
    None
}

/// A safe value crosses no directory, does not read as an option, and carries no
/// control character.
pub proof fn a_safe_value_stays_in_its_place(value: Seq<char>, i: int)
    requires
        path_problem(value) is None,
        0 <= i < value.len(),
    ensures
        value[i] != '/',
        value[i] != '\\',
        !text::control(value[i]),
        value[0] != '-',
        i + 1 < value.len() ==> !(value[i] == '.' && value[i + 1] == '.'),
{
    assert(value.contains(value[i]));
    reveal_strlit("..");
    if i + 1 < value.len() && value[i] == '.' && value[i + 1] == '.' {
        assert(value.subrange(i, i + 2) =~= ".."@);
        assert(text::occurs_at(value, ".."@, i));
    }
}

/// What is wrong with one placeholder, if anything. Only what comes from the item
/// is looked at.
pub open spec fn placeholder_problem(field: Seq<char>, p: Placeholder) -> Option<Seq<char>> {
    if !text::occurs_at(p.path@, "item."@, 0) {
        None
    } else {
        match p.value {
            Err(e) => Some(field + ": "@ + e@),
            Ok(v) => match path_problem(v@) {
                Some(why) => Some(
                    field + ": {{ "@ + p.path@ + " }} = "@ + text::debug_text(v@) + " "@ + why,
                ),
                None => None,
            },
        }
    }
}

/// The first thing wrong with the placeholders.
pub open spec fn placeholders_problem(field: Seq<char>, ps: Seq<Placeholder>) -> Option<Seq<char>>
    decreases ps.len(),
{
    if ps.len() == 0 {
        None
    } else {
        match placeholders_problem(field, ps.drop_last()) {
            Some(why) => Some(why),
            None => placeholder_problem(field, ps.last()),
        }
    }
}

/// The first thing wrong with what a field takes from an item.
pub open spec fn places_problem(field: Seq<char>, places: Option<Places>) -> Option<Seq<char>> {
    match places {
        None => None,
        Some(p) => match p.found {
            Err(e) => Some(field + ": "@ + e@),
            Ok(ps) => placeholders_problem(field, ps@),
        },
    }
}

/// Why the item is rejected, if it is.
pub open spec fn item_problem(item: Item) -> Option<Seq<char>> {
    match places_problem("repo"@, item.repo) {
        Some(why) => Some(why),
        None => places_problem("branch"@, item.branch),
    }
}

fn check_placeholder(field: &str, p: &Placeholder) -> (r: Result<(), String>)
    ensures
        match (r, placeholder_problem(field@, *p)) {
            (Err(e), Some(why)) => e@ == why,
            (Ok(_), None) => true,
            _ => false,
        },
{
    if !text::starts_with(p.path.as_str(), "item.") {
        return Ok(());
    }
    let mut e = field.to_owned();
    match &p.value {
        Err(why) => {
            e.append(": ");
            e.append(why.as_str());
            Err(e)
        },
        Ok(v) => match path_value_problem(v.as_str()) {
            None => Ok(()),
            Some(why) => {
                e.append(": {{ ");
                e.append(p.path.as_str());
                e.append(" }} = ");
                e.append(text::debug_quoted(v.as_str()).as_str());
                e.append(" ");
                e.append(why);
                Err(e)
            },
        },
    }
}

fn check_places(field: &str, places: &Option<Places>) -> (r: Result<(), String>)
    ensures
        match (r, places_problem(field@, *places)) {
            (Err(e), Some(why)) => e@ == why,
            (Ok(_), None) => true,
            _ => false,
        },
{
    let ps = match places {
        None => {
            return Ok(());
        },
        Some(p) => match &p.found {
            Err(why) => {
                let mut e = field.to_owned();
                e.append(": ");
                e.append(why.as_str());
                return Err(e);
            },
            Ok(ps) => ps,
        },
    };
    let mut i: usize = 0;
    while i < ps.len()
        invariant
            i <= ps@.len(),
            places_problem(field@, *places) == placeholders_problem(field@, ps@),
            placeholders_problem(field@, ps@.take(i as int)) is None,
        decreases ps@.len() - i,
    {
        proof {
            assert(ps@.take(i + 1).drop_last() =~= ps@.take(i as int));
            assert(ps@.take(i + 1).last() == ps@[i as int]);
        }
        let checked = check_placeholder(field, &ps[i]);
        if checked.is_err() {
            proof {
                lemma_first_problem_stays(field@, ps@, i + 1);
            }
            return checked;
        }
        i = i + 1;
    }
    assert(ps@.take(i as int) =~= ps@);
    Ok(())
}

proof fn lemma_first_problem_stays(field: Seq<char>, ps: Seq<Placeholder>, n: int)
    requires
        0 <= n <= ps.len(),
        placeholders_problem(field, ps.take(n)) is Some,
    ensures
        placeholders_problem(field, ps) == placeholders_problem(field, ps.take(n)),
    decreases ps.len() - n,
{
    if n == ps.len() {
        assert(ps.take(n) =~= ps);
    } else {
        assert(ps.take(n + 1).drop_last() =~= ps.take(n));
        lemma_first_problem_stays(field, ps, n + 1);
    }
}

/// Item fields are untrusted (a chat message, an issue title). Every
/// `{{ item.* }}` value that `repo` or `branch` would take is checked before
/// rendering; the job's own literal text around it, such as `~/work/`, is
/// the user's and is not.
pub fn check_item_paths(item: &Item) -> (r: Result<(), String>)
    ensures
        match (r, item_problem(*item)) {
            (Err(e), Some(why)) => e@ == why,
            (Ok(_), None) => true,
            _ => false,
        },
{
    let checked = check_places("repo", &item.repo);
    if checked.is_err() {
        return checked;
    }
    check_places("branch", &item.branch)
}

/// A template as rendered: its text, and the placeholders that had no value and
/// rendered empty.
#[derive(Debug)]
pub struct Rendered {
    pub text: String,
    pub missing: Vec<String>,
}

/// What a task's templates rendered to. `repo` and `branch` are there if the job
/// has them.
#[derive(Debug)]
pub struct TaskTexts {
    pub prompt: Result<Rendered, String>,
    pub repo: Option<Result<Rendered, String>>,
    pub branch: Option<Result<Rendered, String>>,
}

/// What is wrong with a rendering.
pub open spec fn rendering_problem(field: Seq<char>, r: Option<Result<Rendered, String>>) -> Option<
    Seq<char>,
> {
    match r {
        Some(Err(e)) => Some(field + ": "@ + e@),
        _ => None,
    }
}

/// What is wrong with a task's texts: the item first, then prompt, `repo` and
/// `branch` in turn.
pub open spec fn task_problem(item: Item, texts: TaskTexts) -> Option<Seq<char>> {
    match item_problem(item) {
        Some(why) => Some(why),
        None => match rendering_problem("prompt"@, Some(texts.prompt)) {
            Some(why) => Some(why),
            None => match rendering_problem("repo"@, texts.repo) {
                Some(why) => Some(why),
                None => rendering_problem("branch"@, texts.branch),
            },
        },
    }
}

/// The placeholders of a field that had no value, each with the field's name.
pub open spec fn missing_of(field: Seq<char>, r: Option<Result<Rendered, String>>) -> Seq<Seq<char>> {
    match r {
        Some(Ok(t)) => Seq::new(t.missing@.len(), |i: int| field + ": "@ + t.missing@[i]@),
        _ => seq![],
    }
}

/// The text of a field, if the job has it.
pub open spec fn rendered_text(r: Option<Result<Rendered, String>>) -> Option<String> {
    match r {
        Some(Ok(t)) => Some(t.text),
        _ => None,
    }
}

fn field_error(field: &str, e: &String) -> (r: String)
    ensures
        r@ == field@ + ": "@ + e@,
{
    let mut s = field.to_owned();
    s.append(": ");
    s.append(e.as_str());
    s
}

fn note_missing(field: &str, r: &Rendered, missing: &mut Vec<String>)
    ensures
        text::texts(final(missing)@) == text::texts(old(missing)@) + missing_of(
            field@,
            Some(Ok(*r)),
        ),
{
    let ghost first = missing@;
    let n: usize = missing.len();
    let mut i: usize = 0;
    while i < r.missing.len()
        invariant
            i <= r.missing@.len(),
            n == first.len(),
            missing@.len() == n + i,
            forall|k: int| 0 <= k < n ==> (#[trigger] missing@[k]) == first[k],
            forall|k: int|
                n <= k < n + i ==> (#[trigger] missing@[k])@ == field@ + ": "@ + r.missing@[k - n]@,
        decreases r.missing@.len() - i,
    {
        missing.push(field_error(field, &r.missing[i]));
        i = i + 1;
    }
    assert(text::texts(missing@) =~= text::texts(first) + missing_of(field@, Some(Ok(*r))));
}

/// A task's prompt and spec, and the placeholders that rendered empty.
#[derive(Debug)]
pub struct RenderedTask {
    pub prompt: String,
    pub spec: DispatchSpec,
    pub missing: Vec<String>,
}

/// Render prompt, repo and branch for one task. A placeholder with no value
/// renders empty and is told: an item that failed to render would stay
/// unseen and fail again every run.
pub fn render_task(item: &Item, spec: &DispatchSpec, texts: TaskTexts) -> (r: Result<
    RenderedTask,
    String,
>)
    ensures
        match (r, task_problem(*item, texts)) {
            (Err(e), Some(why)) => e@ == why,
            (Ok(t), None) => {
                &&& t.prompt == texts.prompt->Ok_0.text
                &&& t.spec == (DispatchSpec {
                    repo: rendered_text(texts.repo),
                    branch: rendered_text(texts.branch),
                    ..*spec
                })
                &&& text::texts(t.missing@) == missing_of("prompt"@, Some(texts.prompt)) + missing_of(
                    "repo"@,
                    texts.repo,
                ) + missing_of("branch"@, texts.branch)
            },
            _ => false,
        },
{
    match check_item_paths(item) {
        Ok(_) => {},
        Err(e) => {
            return Err(e);
        },
    }
    let mut missing: Vec<String> = Vec::new();
    assert(text::texts(missing@) =~= Seq::<Seq<char>>::empty());
    let prompt = match texts.prompt {
        Ok(t) => {
            note_missing("prompt", &t, &mut missing);
            t.text
        },
        Err(e) => {
            return Err(field_error("prompt", &e));
        },
    };
    assert(text::texts(missing@) =~= missing_of("prompt"@, Some(texts.prompt)));
    let repo = match texts.repo {
        None => None,
        Some(Ok(t)) => {
            note_missing("repo", &t, &mut missing);
            Some(t.text)
        },
        Some(Err(e)) => {
            return Err(field_error("repo", &e));
        },
    };
    assert(text::texts(missing@) =~= missing_of("prompt"@, Some(texts.prompt)) + missing_of(
        "repo"@,
        texts.repo,
    ));
    let branch = match texts.branch {
        None => None,
        Some(Ok(t)) => {
            note_missing("branch", &t, &mut missing);
            Some(t.text)
        },
        Some(Err(e)) => {
            return Err(field_error("branch", &e));
        },
    };
    assert(text::texts(missing@) =~= missing_of("prompt"@, Some(texts.prompt)) + missing_of(
        "repo"@,
        texts.repo,
    ) + missing_of("branch"@, texts.branch));
    let base = spec.clone();
    Ok(RenderedTask { prompt, spec: DispatchSpec { repo, branch, ..base }, missing })
}

/// A value is unsafe in a path exactly if it holds a separator, two dots in a row or a
/// control character, or begins with a dash.
pub proof fn what_makes_a_value_unsafe(value: &str, r: Option<&'static str>)
    requires
        call_ensures(path_value_problem, (value,), r),
    ensures
        r is Some <==> (exists|i: int|
            0 <= i < value@.len() && (#[trigger] value@[i] == '/' || value@[i] == '\\'
                || text::control(value@[i]))) || (exists|i: int|
            0 <= i < value@.len() - 1 && #[trigger] value@[i] == '.' && value@[i + 1] == '.') || (
        value@.len() > 0 && value@[0] == '-'),
{
    reveal_strlit("..");
    let v = value@;
    if text::holds_text(v, ".."@) {
        let at = choose|at: int| #[trigger] text::occurs_at(v, ".."@, at);
        assert(v.subrange(at, at + 2) == ".."@);
        assert(v.subrange(at, at + 2)[0] == v[at]);
        assert(v.subrange(at, at + 2)[1] == v[at + 1]);
    }
    if v.contains('/') {
        let i = choose|i: int| 0 <= i < v.len() && v[i] == '/';
        assert(v[i] == '/');
    }
    if v.contains('\\') {
        let i = choose|i: int| 0 <= i < v.len() && v[i] == '\\';
        assert(v[i] == '\\');
    }
    if r is None {
        assert forall|i: int| 0 <= i < v.len() implies #[trigger] v[i] != '/' && v[i] != '\\'
            && !text::control(v[i]) by {
            a_safe_value_stays_in_its_place(v, i);
        }
        assert forall|i: int| 0 <= i < v.len() - 1 && #[trigger] v[i] == '.' implies v[i + 1] != '.' by {
            a_safe_value_stays_in_its_place(v, i);
        }
    }
}

/// An item is rejected if its job's `repo` or `branch` would take from it a value that is
/// unsafe, or that is not there, or if such a template is broken; what does not come from
/// the item is not looked at.
pub proof fn an_item_with_an_unsafe_value_is_rejected(
    item: &Item,
    r: Result<(), String>,
    places: Places,
    ps: Vec<Placeholder>,
    i: int,
)
    requires
        call_ensures(check_item_paths, (item,), r),
        item.repo == Some(places) || item.branch == Some(places),
        places.found matches Ok(v) ==> v == ps && 0 <= i < ps@.len() && text::occurs_at(
            ps@[i].path@,
            "item."@,
            0,
        ) && (ps@[i].value matches Ok(x) ==> x@.contains('/') || (x@.len() > 0 && x@[0] == '-')
            || text::holds_text(x@, ".."@)),
    ensures
        r is Err,
{
    if places.found is Ok {
        lemma_one_is_wrong("repo"@, ps@, i);
        lemma_one_is_wrong("branch"@, ps@, i);
    }
}

proof fn lemma_one_is_wrong(field: Seq<char>, ps: Seq<Placeholder>, i: int)
    requires
        0 <= i < ps.len(),
        placeholder_problem(field, ps[i]) is Some,
    ensures
        placeholders_problem(field, ps) is Some,
    decreases ps.len(),
{
    if i < ps.len() - 1 {
        assert(ps.drop_last()[i] == ps[i]);
        lemma_one_is_wrong(field, ps.drop_last(), i);
    }
}

/// An item whose job takes nothing from it for `repo` and `branch`, or only values that
/// are safe, is accepted.
pub proof fn an_item_with_safe_values_is_accepted(item: &Item, r: Result<(), String>)
    requires
        call_ensures(check_item_paths, (item,), r),
        item.repo matches Some(p) ==> (p.found matches Ok(ps) && forall|i: int|
            0 <= i < ps@.len() ==> !text::occurs_at((#[trigger] ps@[i]).path@, "item."@, 0) || (
            ps@[i].value matches Ok(x) && path_problem(x@) is None)),
        item.branch matches Some(p) ==> (p.found matches Ok(ps) && forall|i: int|
            0 <= i < ps@.len() ==> !text::occurs_at((#[trigger] ps@[i]).path@, "item."@, 0) || (
            ps@[i].value matches Ok(x) && path_problem(x@) is None)),
    ensures
        r is Ok,
{
    if let Some(p) = item.repo {
        if let Ok(ps) = p.found {
            lemma_all_are_right("repo"@, ps@);
        }
    }
    if let Some(p) = item.branch {
        if let Ok(ps) = p.found {
            lemma_all_are_right("branch"@, ps@);
        }
    }
}

proof fn lemma_all_are_right(field: Seq<char>, ps: Seq<Placeholder>)
    requires
        forall|i: int|
            0 <= i < ps.len() ==> !text::occurs_at((#[trigger] ps[i]).path@, "item."@, 0) || (
            ps[i].value matches Ok(x) && path_problem(x@) is None),
    ensures
        placeholders_problem(field, ps) is None,
    decreases ps.len(),
{
    if ps.len() > 0 {
        let rest = ps.drop_last();
        assert forall|i: int| 0 <= i < rest.len() implies !text::occurs_at(
            (#[trigger] rest[i]).path@,
            "item."@,
            0,
        ) || (rest[i].value matches Ok(x) && path_problem(x@) is None) by {
            assert(rest[i] == ps[i]);
        }
        lemma_all_are_right(field, rest);
        assert(ps[ps.len() - 1] == ps.last());
    }
}

/// A rendered task has the texts its templates rendered to, and the rest of its spec from
/// the job; a text that did not render, and an item that is rejected, make no task.
pub proof fn a_task_carries_its_rendered_texts(
    item: &Item,
    spec: &DispatchSpec,
    texts: TaskTexts,
    r: Result<RenderedTask, String>,
    checked: Result<(), String>,
)
    requires
        call_ensures(render_task, (item, spec, texts), r),
        call_ensures(check_item_paths, (item,), checked),
    ensures
        r is Ok <==> checked is Ok && texts.prompt is Ok && (texts.repo matches Some(x) ==> x is Ok) && (
        texts.branch matches Some(x) ==> x is Ok),
        r matches Ok(t) ==> {
            &&& t.prompt@ == texts.prompt->Ok_0.text@
            &&& texts.repo is None ==> t.spec.repo is None
            &&& texts.repo matches Some(Ok(x)) ==> t.spec.repo == Some(x.text)
            &&& texts.branch is None ==> t.spec.branch is None
            &&& texts.branch matches Some(Ok(x)) ==> t.spec.branch == Some(x.text)
            &&& t.spec.agent == spec.agent && t.spec.timeout_secs == spec.timeout_secs
            &&& t.spec.worktree == spec.worktree && t.spec.tags == spec.tags
            &&& t.spec.agent_args == spec.agent_args && t.spec.place == spec.place
        },
{
}

} // verus!
