//! The arguments of the `env` attribute: which environments an item belongs to.

use vstd::prelude::*;

use crate::fn_stream::Stream;
use crate::function_attr::ByEnv;
use crate::impl_attr::{is_by_impl_of, ByImpl, ImplItems};
use crate::utils::{disallow, Disallowed};
use crate::naming::{macro_name, macro_name_nonp, macro_name_nonp_text, macro_name_text, snake_case};

verus! {

/// One segment of a path: its identifier and the tokens of its generic arguments
/// (empty when it has none).
pub struct Segment {
    pub ident: String,
    pub arguments: String,
}

/// A segment as text: identifier and arguments.
pub type SegmentView = (Seq<char>, Seq<char>);

impl DeepView for Segment {
    type V = SegmentView;

    open spec fn deep_view(&self) -> SegmentView {
        (self.ident@, self.arguments@)
    }
}

impl Segment {
    /// A segment with the identifier `ident` and no generic arguments.
    pub fn bare(ident: String) -> (res: Segment)
        ensures
            res.deep_view() == (ident@, Seq::<char>::empty()),
    {
        Segment { ident, arguments: String::new() }
    }

    /// A copy of this segment.
    pub fn copy(&self) -> (res: Segment)
        ensures
            res.deep_view() == self.deep_view(),
    {
        Segment { ident: self.ident.clone(), arguments: self.arguments.clone() }
    }
}

/// A copy of the segments `path[from..to]`.
pub fn copy_segments(path: &Vec<Segment>, from: usize, to: usize) -> (res: Vec<Segment>)
    requires
        from <= to <= path.len(),
    ensures
        res.deep_view() == path.deep_view().subrange(from as int, to as int),
{
    let mut res: Vec<Segment> = Vec::new();
    let mut i = from;
    while i < to
        invariant
            from <= i <= to <= path.len(),
            res@.len() == i - from,
            forall|k: int| 0 <= k < res@.len() ==> #[trigger] res@[k].deep_view() == path@[from + k].deep_view(),
        decreases to - i,
    {
        res.push(path[i].copy());
        i += 1;
    }
    assert(res.deep_view() =~= path.deep_view().subrange(from as int, to as int));
    res
}

/// One environment named in an `env` attribute, resolved from a path such as
/// `crate_path::Envs::Dev`.
pub struct Env {
    /// The environment's variant name (`Dev`).
    pub name: String,
    /// The path of the enum of environments (`crate_path::Envs`).
    pub env: Vec<Segment>,
    /// The path of the unit struct that holds the variant's functions (`crate_path::Dev`).
    pub env_as_holder: Vec<Segment>,
    /// The path of the macro that keeps an item only for this environment.
    pub macro_name: Vec<Segment>,
    /// The path of the macro that keeps an item for every other environment.
    pub nonp_macro_name: Vec<Segment>,
}

/// An environment as text.
pub struct EnvView {
    pub name: Seq<char>,
    pub env: Seq<SegmentView>,
    pub env_as_holder: Seq<SegmentView>,
    pub macro_name: Seq<SegmentView>,
    pub nonp_macro_name: Seq<SegmentView>,
}

impl DeepView for Env {
    type V = EnvView;

    open spec fn deep_view(&self) -> EnvView {
        EnvView {
            name: self.name@,
            env: self.env.deep_view(),
            env_as_holder: self.env_as_holder.deep_view(),
            macro_name: self.macro_name.deep_view(),
            nonp_macro_name: self.nonp_macro_name.deep_view(),
        }
    }
}

/// The path that an environment's helper items live under: all segments of `path`
/// but the last two (the enum and the variant), or none when there are no more.
pub open spec fn root_of_path(path: Seq<SegmentView>) -> Seq<SegmentView> {
    if path.len() > 2 {
        path.take(path.len() - 2)
    } else {
        Seq::empty()
    }
}

/// The environment that the path `path` (whose last segment is the variant) names.
pub open spec fn env_of_path(path: Seq<SegmentView>) -> EnvView
    recommends
        path.len() >= 1,
{
    let name = path.last().0;
    let root = root_of_path(path);
    EnvView {
        name,
        env: path.take(path.len() - 1),
        env_as_holder: root.push((name, Seq::empty())),
        macro_name: root.push((snake_case(macro_name_text(name)), Seq::empty())),
        nonp_macro_name: root.push((snake_case(macro_name_nonp_text(name)), Seq::empty())),
    }
}

impl Env {
    /// Resolves the environment that a path to an enum variant names.
    pub fn from_segments(path: Vec<Segment>) -> (res: Env)
        requires
            path.len() >= 1,
        ensures
            res.deep_view() == env_of_path(path.deep_view()),
    {
        let len = path.len();
        let name = path[len - 1].ident.clone();
        let env = copy_segments(&path, 0, len - 1);
        let root_len: usize = if len > 2 { len - 2 } else { 0 };
        let mut env_as_holder = copy_segments(&path, 0, root_len);
        let mut qual_macro_name = copy_segments(&path, 0, root_len);
        let mut nonp_macro_name = copy_segments(&path, 0, root_len);
        env_as_holder.push(Segment::bare(name.clone()));
        qual_macro_name.push(Segment::bare(macro_name(&name)));
        nonp_macro_name.push(Segment::bare(macro_name_nonp(&name)));
        let res = Env {
            name,
            env,
            env_as_holder,
            macro_name: qual_macro_name,
            nonp_macro_name,
        };
        proof {
            let p = path.deep_view();
            assert(root_of_path(p) =~= p.subrange(0, root_len as int));
            assert(p.take(len - 1) =~= p.subrange(0, len - 1));
            assert(res.env_as_holder.deep_view() =~= env_of_path(p).env_as_holder);
            assert(res.macro_name.deep_view() =~= env_of_path(p).macro_name);
            assert(res.nonp_macro_name.deep_view() =~= env_of_path(p).nonp_macro_name);
        }
        res
    }

    /// A copy of this environment.
    pub fn copy(&self) -> (res: Env)
        ensures
            res.deep_view() == self.deep_view(),
    {
        proof {
            assert(self.env.deep_view().subrange(0, self.env.len() as int) =~= self.env.deep_view());
            assert(self.env_as_holder.deep_view().subrange(0, self.env_as_holder.len() as int)
                =~= self.env_as_holder.deep_view());
            assert(self.macro_name.deep_view().subrange(0, self.macro_name.len() as int)
                =~= self.macro_name.deep_view());
            assert(self.nonp_macro_name.deep_view().subrange(0, self.nonp_macro_name.len() as int)
                =~= self.nonp_macro_name.deep_view());
        }
        Env {
            name: self.name.clone(),
            env: copy_segments(&self.env, 0, self.env.len()),
            env_as_holder: copy_segments(&self.env_as_holder, 0, self.env_as_holder.len()),
            macro_name: copy_segments(&self.macro_name, 0, self.macro_name.len()),
            nonp_macro_name: copy_segments(&self.nonp_macro_name, 0, self.nonp_macro_name.len()),
        }
    }
}

/// The arguments of an `env` attribute: the environments, and whether they replace
/// those of an enclosing `env` attribute (`@supercede`).
pub struct Args {
    pub envs: Vec<Env>,
    pub supercede: bool,
}

/// The arguments of an `env` attribute as text.
pub struct ArgsView {
    pub envs: Seq<EnvView>,
    pub supercede: bool,
}

impl DeepView for Args {
    type V = ArgsView;

    open spec fn deep_view(&self) -> ArgsView {
        ArgsView { envs: self.envs.deep_view(), supercede: self.supercede }
    }
}

/// The names of a list of environments.
pub open spec fn env_names(envs: Seq<EnvView>) -> Seq<Seq<char>> {
    envs.map_values(|e: EnvView| e.name)
}

/// `kept`, followed by the environments of `more` whose name is not yet among the
/// environments before them.
pub open spec fn add_unseen(kept: Seq<EnvView>, more: Seq<EnvView>) -> Seq<EnvView>
    decreases more.len(),
{
    if more.len() == 0 {
        kept
    } else {
        let prev = add_unseen(kept, more.drop_last());
        if env_names(prev).contains(more.last().name) {
            prev
        } else {
            prev.push(more.last())
        }
    }
}

/// The first environment of each name, in order.
pub open spec fn dedup_by_name(envs: Seq<EnvView>) -> Seq<EnvView> {
    add_unseen(Seq::empty(), envs)
}

/// The environments that a merge starts from: both lists when neither supercedes,
/// the other's when it supercedes, this one's otherwise.
pub open spec fn combined_envs(this: ArgsView, other: ArgsView) -> Seq<EnvView> {
    if !this.supercede && !other.supercede {
        this.envs + other.envs
    } else if other.supercede {
        other.envs
    } else {
        this.envs
    }
}

/// The environments of `this` after merging `other` into it.
pub open spec fn merged_envs(this: ArgsView, other: ArgsView) -> Seq<EnvView> {
    dedup_by_name(combined_envs(this, other))
}

/// Whether `names` holds `name`.
fn contains_name(names: &Vec<String>, name: &String) -> (res: bool)
    ensures
        res == names.deep_view().contains(name@),
{
    let mut i: usize = 0;
    while i < names.len()
        invariant
            0 <= i <= names.len(),
            forall|k: int| 0 <= k < i ==> names@[k]@ != name@,
        decreases names.len() - i,
    {
        if names[i] == *name {
            assert(names.deep_view()[i as int] == name@);
            return true;
        }
        i += 1;
    }
    proof {
        if names.deep_view().contains(name@) {
            let k = choose|k: int| 0 <= k < names.deep_view().len() && names.deep_view()[k] == name@;
            assert(names@[k]@ == name@);
        }
    }
    false
}

/// A copy of a list of environments.
fn copy_envs(envs: &Vec<Env>) -> (res: Vec<Env>)
    ensures
        res.deep_view() == envs.deep_view(),
{
    let mut res: Vec<Env> = Vec::new();
    let mut i: usize = 0;
    while i < envs.len()
        invariant
            0 <= i <= envs.len(),
            res@.len() == i,
            forall|k: int| 0 <= k < i ==> #[trigger] res@[k].deep_view() == envs@[k].deep_view(),
        decreases envs.len() - i,
    {
        res.push(envs[i].copy());
        i += 1;
    }
    assert(res.deep_view() =~= envs.deep_view());
    res
}

/// The first environment of each name in `envs`, in order.
fn dedup_envs(envs: &Vec<Env>) -> (res: Vec<Env>)
    ensures
        res.deep_view() == dedup_by_name(envs.deep_view()),
{
    let ghost all = envs.deep_view();
    let mut seen: Vec<String> = Vec::new();
    let mut res: Vec<Env> = Vec::new();
    let mut i: usize = 0;
    while i < envs.len()
        invariant
            0 <= i <= envs.len(),
            all == envs.deep_view(),
            res.deep_view() == add_unseen(Seq::empty(), all.take(i as int)),
            seen.deep_view() == env_names(res.deep_view()),
        decreases envs.len() - i,
    {
        let ghost prev = res.deep_view();
        assert(all.take(i + 1).drop_last() =~= all.take(i as int));
        assert(all.take(i + 1).last() == all[i as int]);
        let ghost seen0 = seen@;
        if !contains_name(&seen, &envs[i].name) {
            seen.push(envs[i].name.clone());
            assert(seen@ == seen0.push(envs@[i as int].name));
            res.push(envs[i].copy());
            assert(res.deep_view() =~= prev.push(all[i as int]));
            assert(env_names(res.deep_view()) =~= env_names(prev).push(all[i as int].name));
            assert(seen.deep_view() =~= env_names(res.deep_view()));
        }
        i += 1;
    }
    assert(all.take(envs.len() as int) =~= all);
    res
}

impl Args {
    /// Arguments from the modifiers written before the environments and the
    /// environments themselves.
    pub fn new(modifiers: Vec<Modifiers>, envs: Vec<Env>) -> (res: Args)
        ensures
            res.supercede == (modifiers@.len() > 0),
            res.envs@ == envs@,
    {
        Args { envs, supercede: modifiers.len() > 0 }
    }

    /// Merges the arguments of an enclosing attribute into these. When neither
    /// supercedes, the other's environments are appended; when the other supercedes,
    /// its environments replace these; otherwise these stay. Then only the first
    /// environment of each name is kept.
    pub fn merge(&mut self, other: &Args)
        ensures
            final(self).deep_view().envs == merged_envs(old(self).deep_view(), other.deep_view()),
            final(self).supercede == old(self).supercede,
    {
        let combined: Vec<Env> = if !self.supercede && !other.supercede {
            let mut c = copy_envs(&self.envs);
            let mut rest = copy_envs(&other.envs);
            let ghost c0 = c.deep_view();
            let ghost r0 = rest.deep_view();
            c.append(&mut rest);
            assert(c.deep_view() =~= c0 + r0);
            c
        } else if other.supercede {
            copy_envs(&other.envs)
        } else {
            copy_envs(&self.envs)
        };
        self.envs = dedup_envs(&combined);
    }

    /// A copy of these arguments.
    pub fn copy(&self) -> (res: Args)
        ensures
            res.deep_view() == self.deep_view(),
    {
        Args { envs: copy_envs(&self.envs), supercede: self.supercede }
    }
}

/// An `env` attribute written on a method of an impl block: `#[env(..)]` and its
/// arguments.
pub struct ArgsMeta {
    pub args: Args,
}

/// A modifier written as `@keyword` before the environments of an `env` attribute.
pub enum Modifiers {
    /// `@supercede`: the environments replace those of the enclosing attribute.
    Supercede,
}

impl Modifiers {
    /// The modifier that `keyword` names, if any.
    pub fn from_keyword(keyword: &String) -> (res: Option<Modifiers>)
        ensures
            res is Some <==> keyword@ == "supercede"@,
    {
        if *keyword == "supercede".to_owned() {
            Some(Modifiers::Supercede)
        } else {
            None
        }
    }
}

proof fn lemma_add_unseen_concat(kept: Seq<EnvView>, a: Seq<EnvView>, b: Seq<EnvView>)
    ensures
        add_unseen(kept, a + b) == add_unseen(add_unseen(kept, a), b),
    decreases b.len(),
{
    if b.len() == 0 {
        assert(a + b =~= a);
    } else {
        assert((a + b).drop_last() =~= a + b.drop_last());
        assert((a + b).last() == b.last());
        lemma_add_unseen_concat(kept, a, b.drop_last());
    }
}

proof fn lemma_add_unseen_known(kept: Seq<EnvView>, more: Seq<EnvView>)
    requires
        forall|i: int| 0 <= i < more.len() ==> env_names(kept).contains(#[trigger] more[i].name),
    ensures
        add_unseen(kept, more) == kept,
    decreases more.len(),
{
    if more.len() > 0 {
        assert forall|i: int| 0 <= i < more.drop_last().len() implies env_names(kept).contains(
            #[trigger] more.drop_last()[i].name,
        ) by {
            assert(more.drop_last()[i] == more[i]);
        }
        lemma_add_unseen_known(kept, more.drop_last());
        assert(env_names(kept).contains(more[more.len() - 1].name));
    }
}

proof fn lemma_add_unseen_covers(kept: Seq<EnvView>, more: Seq<EnvView>)
    ensures
        forall|i: int| 0 <= i < kept.len() ==> env_names(add_unseen(kept, more)).contains(#[trigger] kept[i].name),
        forall|i: int| 0 <= i < more.len() ==> env_names(add_unseen(kept, more)).contains(#[trigger] more[i].name),
        forall|i: int| 0 <= i < add_unseen(kept, more).len() ==> (kept + more).contains(#[trigger] add_unseen(kept, more)[i]),
    decreases more.len(),
{
    let res = add_unseen(kept, more);
    if more.len() == 0 {
        assert forall|i: int| 0 <= i < kept.len() implies env_names(res).contains(#[trigger] kept[i].name) by {
            assert(env_names(res)[i] == kept[i].name);
        }
        assert forall|i: int| 0 <= i < res.len() implies (kept + more).contains(#[trigger] res[i]) by {
            assert((kept + more)[i] == res[i]);
        }
    } else {
        let prev = add_unseen(kept, more.drop_last());
        lemma_add_unseen_covers(kept, more.drop_last());
        let last = more.last();
        assert forall|i: int| 0 <= i < kept.len() implies env_names(res).contains(#[trigger] kept[i].name) by {
            assert(env_names(prev).contains(kept[i].name));
            let j = choose|j: int| 0 <= j < env_names(prev).len() && env_names(prev)[j] == kept[i].name;
            assert(env_names(res)[j] == kept[i].name);
        }
        assert forall|i: int| 0 <= i < more.len() implies env_names(res).contains(#[trigger] more[i].name) by {
            if i < more.len() - 1 {
                assert(more.drop_last()[i] == more[i]);
                assert(env_names(prev).contains(more[i].name));
                let j = choose|j: int| 0 <= j < env_names(prev).len() && env_names(prev)[j] == more[i].name;
                assert(env_names(res)[j] == more[i].name);
            } else if !env_names(prev).contains(last.name) {
                assert(env_names(res)[prev.len() as int] == last.name);
            }
        }
        assert forall|i: int| 0 <= i < res.len() implies (kept + more).contains(#[trigger] res[i]) by {
            if i < prev.len() {
                assert(res[i] == prev[i]);
                assert((kept + more.drop_last()).contains(prev[i]));
                let j = choose|j: int| 0 <= j < (kept + more.drop_last()).len() && (kept + more.drop_last())[j] == prev[i];
                assert((kept + more)[j] == prev[i]);
            } else {
                assert((kept + more)[kept.len() + more.len() - 1] == last);
            }
        }
    }
}

proof fn lemma_add_unseen_distinct(kept: Seq<EnvView>, more: Seq<EnvView>)
    requires
        env_names(kept).no_duplicates(),
    ensures
        env_names(add_unseen(kept, more)).no_duplicates(),
    decreases more.len(),
{
    if more.len() > 0 {
        let prev = add_unseen(kept, more.drop_last());
        lemma_add_unseen_distinct(kept, more.drop_last());
        if !env_names(prev).contains(more.last().name) {
            assert(env_names(prev.push(more.last())) =~= env_names(prev).push(more.last().name));
        }
    }
}

proof fn lemma_dedup_of_distinct(envs: Seq<EnvView>)
    requires
        env_names(envs).no_duplicates(),
    ensures
        dedup_by_name(envs) == envs,
    decreases envs.len(),
{
    if envs.len() > 0 {
        let init = envs.drop_last();
        assert(env_names(init) =~= env_names(envs).drop_last());
        lemma_dedup_of_distinct(init);
        if env_names(init).contains(envs.last().name) {
            let j = choose|j: int| 0 <= j < env_names(init).len() && env_names(init)[j] == envs.last().name;
            assert(env_names(envs)[j] == env_names(envs)[envs.len() - 1]);
        }
        assert(init.push(envs.last()) =~= envs);
    }
}

/// Where the items of an environment are looked up. For a path `root::Enum::Variant`,
/// the enum is the path without its last segment, and the holder struct and both
/// macros live beside the enum: their paths keep every segment of the path but the
/// last two, in order, and end in one segment without arguments, the variant's name
/// for the holder and `define_<variant>_p` and `define_<variant>_nonp` in snake case
/// for the macros. A path of one or two segments has no module part, and then each of
/// the three is that single segment.
pub proof fn environment_items_live_beside_the_enum(path: Seq<SegmentView>)
    requires
        path.len() >= 1,
    ensures
        ({
            let e = env_of_path(path);
            let n = path.len();
            let v = path[n - 1].0;
            let holder = (v, Seq::<char>::empty());
            let p_macro = (snake_case("define_"@ + v + "_p"@), Seq::<char>::empty());
            let nonp_macro = (snake_case("define_"@ + v + "_nonp"@), Seq::<char>::empty());
            &&& e.name == v
            &&& e.env.len() == n - 1
            &&& forall|k: int| 0 <= k < n - 1 ==> #[trigger] e.env[k] == path[k]
            &&& n >= 3 ==> {
                &&& e.env_as_holder.len() == n - 1 && e.macro_name.len() == n - 1 && e.nonp_macro_name.len() == n - 1
                &&& forall|k: int| 0 <= k < n - 2 ==> #[trigger] e.env_as_holder[k] == path[k]
                    && e.macro_name[k] == path[k] && e.nonp_macro_name[k] == path[k]
                &&& e.env_as_holder[n - 2] == holder
                &&& e.macro_name[n - 2] == p_macro
                &&& e.nonp_macro_name[n - 2] == nonp_macro
            }
            &&& n < 3 ==> {
                &&& e.env_as_holder == seq![holder]
                &&& e.macro_name == seq![p_macro]
                &&& e.nonp_macro_name == seq![nonp_macro]
            }
        }),
{
    let n = path.len();
    let v = path[n - 1].0;
    assert(macro_name_text(v) == "define_"@ + v + "_p"@);
    assert(macro_name_nonp_text(v) == "define_"@ + v + "_nonp"@);
    if n < 3 {
        assert(root_of_path(path) =~= Seq::<SegmentView>::empty());
        assert(env_of_path(path).env_as_holder =~= seq![(v, Seq::<char>::empty())]);
        assert(env_of_path(path).macro_name =~= seq![(snake_case("define_"@ + v + "_p"@), Seq::<char>::empty())]);
        assert(env_of_path(path).nonp_macro_name =~= seq![(snake_case("define_"@ + v + "_nonp"@), Seq::<char>::empty())]);
    }
}

/// After a merge no two environments share a name.
pub proof fn merge_names_are_distinct(this: ArgsView, other: ArgsView)
    ensures
        env_names(merged_envs(this, other)).no_duplicates(),
{
    assert(env_names(Seq::<EnvView>::empty()) =~= Seq::<Seq<char>>::empty());
    lemma_add_unseen_distinct(Seq::empty(), combined_envs(this, other));
}

/// A merge loses no name of the environments it starts from, and adds no environment
/// that is not among them.
pub proof fn merge_keeps_every_name(this: ArgsView, other: ArgsView)
    ensures
        forall|i: int| 0 <= i < combined_envs(this, other).len() ==>
            env_names(merged_envs(this, other)).contains(#[trigger] combined_envs(this, other)[i].name),
        forall|i: int| 0 <= i < merged_envs(this, other).len() ==>
            combined_envs(this, other).contains(#[trigger] merged_envs(this, other)[i]),
{
    let c = combined_envs(this, other);
    lemma_add_unseen_covers(Seq::empty(), c);
    assert(Seq::<EnvView>::empty() + c =~= c);
}

/// Merging the same arguments a second time changes nothing.
pub proof fn merge_is_idempotent(this: ArgsView, other: ArgsView)
    ensures
        merged_envs(ArgsView { envs: merged_envs(this, other), supercede: this.supercede }, other)
            == merged_envs(this, other),
{
    let m = merged_envs(this, other);
    let again = ArgsView { envs: m, supercede: this.supercede };
    merge_names_are_distinct(this, other);
    if !this.supercede && !other.supercede {
        lemma_add_unseen_concat(Seq::empty(), m, other.envs);
        lemma_dedup_of_distinct(m);
        merge_keeps_every_name(this, other);
        assert forall|i: int| 0 <= i < other.envs.len() implies env_names(m).contains(#[trigger] other.envs[i].name) by {
            assert(combined_envs(this, other)[this.envs.len() + i] == other.envs[i]);
        }
        lemma_add_unseen_known(m, other.envs);
    } else if !other.supercede {
        lemma_dedup_of_distinct(m);
    }
}

/// The item under an `env` attribute: an impl block or a function.
pub enum EnvStreams {
    Impl(ImplItems),
    Function(Stream),
}

/// An `env` attribute applied to its item.
pub enum EnvAttr {
    Impl(ByImpl),
    Function(Box<ByEnv>),
}

impl EnvAttr {
    /// Applies the arguments of an `env` attribute to its item. `@supercede` has no
    /// meaning there, on a function or on an impl block, and is refused.
    pub fn new(args: Args, stream: EnvStreams) -> (res: Result<Self, Disallowed>)
        ensures
            res is Err <==> args.supercede,
            res matches Err(e) ==> e.directive@ == "supercede"@
                && e.context@ == (if stream is Function { "fn"@ } else { "impl"@ }),
            !args.supercede ==> match stream {
                EnvStreams::Function(f) => res matches Ok(EnvAttr::Function(b)) && b.args == args && b.stream == f,
                EnvStreams::Impl(items) => res matches Ok(EnvAttr::Impl(b)) && is_by_impl_of(args, items, b),
            },
    {
        let has_supercede = |a: &Args| -> (r: bool)
            ensures
                r == a.supercede,
            { a.supercede };
        match stream {
            EnvStreams::Function(func) => {
                disallow("supercede", "fn", &args, has_supercede)?;
                Ok(EnvAttr::Function(Box::new(ByEnv::new(args, func))))
            },
            EnvStreams::Impl(items) => {
                disallow("supercede", "impl", &args, has_supercede)?;
                Ok(EnvAttr::Impl(ByImpl::new(args, items)))
            },
        }
    }
}

} // verus!
