//! The set of capabilities the model is allowed to use.

use crate::brain::error::{BrainErr, BrainErrView};
use crate::json::{json_views, Json, JsonView};
use crate::text::{is_before, join, joined, same, text_less, text_order, text_order_chains};
use std::sync::Arc;
use vstd::prelude::*;

verus! {

/// A capability, as far as the model learns about it: what it is called, what it
/// is for and which arguments it takes.
pub trait Tool {
    /// The name.
    open spec fn called(&self) -> Seq<char> {
        Seq::empty()
    }

    /// The purpose.
    open spec fn described(&self) -> Seq<char> {
        Seq::empty()
    }

    /// The schema of the arguments.
    open spec fn takes(&self) -> JsonView {
        JsonView::Null
    }

    /// The name the model calls it by.
    fn name(&self) -> (r: &str)
        ensures
            r@ == self.called(),
    ;

    /// What it is for, written for the model.
    fn description(&self) -> (r: &str)
        ensures
            r@ == self.described(),
    ;

    /// JSON schema of its arguments.
    fn parameters(&self) -> (r: Json)
        ensures
            r@ == self.takes(),
    ;
}

/// A shared tool is a tool.
impl<T: Tool> Tool for Arc<T> {
    open spec fn called(&self) -> Seq<char> {
        (**self).called()
    }

    open spec fn described(&self) -> Seq<char> {
        (**self).described()
    }

    open spec fn takes(&self) -> JsonView {
        (**self).takes()
    }

    fn name(&self) -> (r: &str) {
        (**self).name()
    }

    fn description(&self) -> (r: &str) {
        (**self).description()
    }

    fn parameters(&self) -> (r: Json) {
        (**self).parameters()
    }
}

/// One entry of the `tools` array that a chat-completions request carries.
pub open spec fn function_schema(
    name: Seq<char>,
    description: JsonView,
    parameters: JsonView,
) -> JsonView {
    JsonView::empty().with("type"@, JsonView::Str("function"@)).with(
        "function"@,
        JsonView::empty().with("name"@, JsonView::Str(name)).with("description"@, description).with(
            "parameters"@,
            parameters,
        ),
    )
}

/// One entry of the `tools` array.
pub fn make_schema(name: &str, description: Json, parameters: Json) -> (r: Json)
    ensures
        r@ == function_schema(name@, description@, parameters@),
{
    Json::empty().with("type", Json::string("function")).with(
        "function",
        Json::empty().with("name", Json::string(name)).with("description", description).with(
            "parameters",
            parameters,
        ),
    )
}

/// The entry of the `tools` array that describes `tool`.
pub open spec fn schema_of<T: Tool>(tool: T) -> JsonView {
    function_schema(tool.called(), JsonView::Str(tool.described()), tool.takes())
}

/// Tools the model may call, each under its name.
///
/// They are kept sorted: tool order is prompt content, and a prompt that
/// reshuffles between runs makes the model's behaviour irreproducible.
#[derive(Clone)]
pub struct ToolRegistry<T: Tool> {
    tools: Vec<T>,
}

/// The names of `tools`.
pub open spec fn names_of<T: Tool>(tools: Seq<T>) -> Seq<Seq<char>> {
    tools.map_values(|t: T| t.called())
}

/// Whether `names` are in strictly ascending order, so that none occurs twice.
pub open spec fn ascending(names: Seq<Seq<char>>) -> bool {
    forall|i: int, j: int| 0 <= i < j < names.len() ==> text_less(#[trigger] names[i], #[trigger] names[j])
}

/// The tools as a map from name to tool.
pub open spec fn by_name<T: Tool>(tools: Seq<T>) -> Map<Seq<char>, T> {
    Map::new(
        |name: Seq<char>| names_of(tools).contains(name),
        |name: Seq<char>| tools[names_of(tools).index_of(name)],
    )
}

/// In an ascending list a name stands in one place only.
proof fn ascending_is_injective(names: Seq<Seq<char>>, i: int)
    requires
        ascending(names),
        0 <= i < names.len(),
    ensures
        names.index_of(names[i]) == i,
        names.contains(names[i]),
{
    let k = names.index_of(names[i]);
    assert(0 <= k < names.len() && names[k] == names[i]);
    if k < i {
        text_order(names[k], names[i]);
    } else if i < k {
        text_order(names[i], names[k]);
    }
}

impl<T: Tool> Default for ToolRegistry<T> {
    fn default() -> (r: Self)
        ensures
            r.wf(),
            r.list() == Seq::<T>::empty(),
            r.contents() =~= Map::<Seq<char>, T>::empty(),
    {
        ToolRegistry::new()
    }
}

impl<T: Tool> ToolRegistry<T> {
    /// The tools in the order in which the model sees them.
    pub closed spec fn list(&self) -> Seq<T> {
        self.tools@
    }

    /// The names are ascending.
    pub open spec fn wf(&self) -> bool {
        ascending(names_of(self.list()))
    }

    /// The tools by name.
    pub open spec fn contents(&self) -> Map<Seq<char>, T> {
        by_name(self.list())
    }

    /// An empty registry. A model given one of these always answers in prose.
    pub fn new() -> (r: Self)
        ensures
            r.wf(),
            r.list() == Seq::<T>::empty(),
            r.contents() =~= Map::<Seq<char>, T>::empty(),
    {
        Self { tools: Vec::new() }
    }

    /// Where `name` stands, or where it would have to be put.
    fn place(&self, name: &str) -> (r: usize)
        requires
            self.wf(),
        ensures
            r <= self.list().len(),
            forall|j: int|
                0 <= j < r ==> text_less(#[trigger] names_of(self.list())[j], name@),
            forall|j: int|
                r <= j < self.list().len() ==> !text_less(
                    #[trigger] names_of(self.list())[j],
                    name@,
                ),
    {
        let mut i: usize = 0;
        let ghost names = names_of(self.list());
        while i < self.tools.len() && is_before(self.tools[i].name(), name)
            invariant
                i <= self.list().len(),
                names == names_of(self.list()),
                self.list() == self.tools@,
                forall|j: int| 0 <= j < i ==> text_less(#[trigger] names[j], name@),
            decreases self.list().len() - i,
        {
            assert(names[i as int] == self.tools@[i as int].called());
            i += 1;
        }
        proof {
            if i < names.len() {
                assert(names[i as int] == self.tools@[i as int].called());
            }
            assert forall|j: int| i <= j < names.len() implies !text_less(
                #[trigger] names[j],
                name@,
            ) by {
                if j > i && text_less(names[j], name@) {
                    text_order_chains(names[i as int], names[j], name@);
                }
            }
        }
        i
    }

    /// Add a tool. One registered before under the same name is replaced.
    pub fn register(&mut self, tool: T)
        requires
            old(self).wf(),
        ensures
            final(self).wf(),
            final(self).contents() =~= old(self).contents().insert(tool.called(), tool),
    {
        let name = tool.name().to_owned();
        let i: usize = self.place(name.as_str());
        let ghost before = self.list();
        let ghost names = names_of(before);
        let there: bool = i < self.tools.len() && same(self.tools[i].name(), name.as_str());
        if there {
            assert(names[i as int] == name@);
            self.tools.set(i, tool);
            proof {
                let after = names_of(self.list());
                assert(after =~= names);
                self.one_changed(before, i as int, tool);
            }
        } else {
            proof {
                if i < before.len() {
                    assert(names[i as int] == before[i as int].called());
                    text_order(names[i as int], name@);
                }
            }
            self.tools.insert(i, tool);
            proof {
                self.one_added(before, i as int, tool);
            }
        }
    }

    proof fn one_changed(&self, before: Seq<T>, i: int, tool: T)
        requires
            ascending(names_of(before)),
            0 <= i < before.len(),
            names_of(before)[i] == tool.called(),
            self.list() == before.update(i, tool),
        ensures
            self.wf(),
            self.contents() =~= by_name(before).insert(tool.called(), tool),
    {
        let names = names_of(before);
        assert(names_of(self.list()) =~= names);
        ascending_is_injective(names, i);
        assert forall|n: Seq<char>| #[trigger] self.contents().contains_key(n) && n
            != tool.called() implies self.contents()[n] == by_name(before)[n] by {
            let k = names.index_of(n);
            assert(names[k] == n);
        }
        assert(self.contents() =~= by_name(before).insert(tool.called(), tool));
    }

    proof fn one_added(&self, before: Seq<T>, i: int, tool: T)
        requires
            ascending(names_of(before)),
            0 <= i <= before.len(),
            forall|j: int| 0 <= j < i ==> text_less(#[trigger] names_of(before)[j], tool.called()),
            i < before.len() ==> text_less(tool.called(), names_of(before)[i]),
            self.list() == before.insert(i, tool),
        ensures
            self.wf(),
            self.contents() =~= by_name(before).insert(tool.called(), tool),
    {
        let names = names_of(before);
        let after = names_of(self.list());
        assert(after =~= names.insert(i, tool.called()));
        assert forall|j: int| i <= j < names.len() implies text_less(
            tool.called(),
            #[trigger] names[j],
        ) by {
            if j > i {
                text_order_chains(tool.called(), names[i], names[j]);
            }
        }
        assert forall|a: int, b: int| 0 <= a < b < after.len() implies text_less(
            #[trigger] after[a],
            #[trigger] after[b],
        ) by {
            let x = if a < i {
                a
            } else {
                a - 1
            };
            let y = if b < i {
                b
            } else {
                b - 1
            };
            if a != i {
                assert(after[a] == names[x]);
            }
            if b != i {
                assert(after[b] == names[y]);
            }
        }
        ascending_is_injective(after, i);
        let m = self.contents();
        let want = by_name(before).insert(tool.called(), tool);
        assert forall|n: Seq<char>| #[trigger] m.contains_key(n) <==> want.contains_key(n) by {
            if after.contains(n) {
                let k = after.index_of(n);
                assert(after[k] == n);
                if k < i {
                    assert(names[k] == n);
                } else if k > i {
                    assert(names[k - 1] == n);
                }
            }
            if names.contains(n) {
                let k = names.index_of(n);
                assert(names[k] == n);
                if k < i {
                    assert(after[k] == n);
                } else {
                    assert(after[k + 1] == n);
                }
            }
            if n == tool.called() {
                assert(after[i] == n);
            }
        }
        assert forall|n: Seq<char>| #[trigger] m.contains_key(n) implies m[n] == want[n] by {
            let k = after.index_of(n);
            assert(after[k] == n);
            if k == i {
                assert(n == tool.called());
            } else {
                let x = if k < i {
                    k
                } else {
                    k - 1
                };
                assert(names[x] == n);
                ascending_is_injective(names, x);
                text_order(n, tool.called());
                assert(self.list()[k] == before[x]);
            }
        }
        assert(m =~= want);
    }

    /// [`ToolRegistry::register`] for chaining at construction.
    #[must_use]
    pub fn with(self, tool: T) -> (r: Self)
        requires
            self.wf(),
        ensures
            r.wf(),
            r.contents() =~= self.contents().insert(tool.called(), tool),
    {
        let mut this = self;
        this.register(tool);
        this
    }

    /// Look one up by the name the model used.
    pub fn get(&self, name: &str) -> (r: Option<&T>)
        requires
            self.wf(),
        ensures
            r is Some <==> self.contents().contains_key(name@),
            r matches Some(tool) ==> self.contents()[name@] == *tool && tool.called() == name@,
    {
        let i: usize = self.place(name);
        let ghost names = names_of(self.list());
        if i < self.tools.len() {
            assert(names[i as int] == self.tools@[i as int].called());
            if same(self.tools[i].name(), name) {
                proof {
                    ascending_is_injective(names, i as int);
                }
                return Some(&self.tools[i]);
            }
        }
        proof {
            if names.contains(name@) {
                let k = names.index_of(name@);
                assert(names[k] == name@);
                text_order(name@, name@);
                if k > i {
                    text_order(names[i as int], name@);
                    text_order_chains(name@, names[i as int], name@);
                }
            }
        }
        None
    }

    /// Registered names, sorted.
    pub fn names(&self) -> (r: Vec<String>)
        ensures
            crate::text::views(r@) == names_of(self.list()),
    {
        let mut out: Vec<String> = Vec::new();
        let mut i: usize = 0;
        while i < self.tools.len()
            invariant
                i <= self.tools@.len(),
                out@.len() == i,
                forall|k: int| 0 <= k < i ==> (#[trigger] out@[k])@ == self.tools@[k].called(),
            decreases self.tools@.len() - i,
        {
            out.push(self.tools[i].name().to_owned());
            i += 1;
        }
        assert(crate::text::views(out@) =~= names_of(self.list()));
        out
    }

    /// How many tools there are.
    pub fn len(&self) -> (r: usize)
        ensures
            r == self.list().len(),
    {
        self.tools.len()
    }

    /// Whether there are none.
    pub fn is_empty(&self) -> (r: bool)
        ensures
            r == (self.list().len() == 0),
    {
        self.tools.len() == 0
    }

    /// The `tools` array of a chat-completions request, one entry per tool and in
    /// the order of their names.
    pub fn schemas(&self) -> (r: Vec<Json>)
        ensures
            json_views(r@) == self.list().map_values(|t: T| schema_of(t)),
    {
        let mut out: Vec<Json> = Vec::new();
        let mut i: usize = 0;
        while i < self.tools.len()
            invariant
                i <= self.tools@.len(),
                out@.len() == i,
                forall|k: int|
                    0 <= k < i ==> crate::json::json_view(#[trigger] out@[k]) == schema_of(
                        self.tools@[k],
                    ),
            decreases self.tools@.len() - i,
        {
            let tool = &self.tools[i];
            out.push(
                make_schema(tool.name(), Json::string(tool.description()), tool.parameters()),
            );
            i += 1;
        }
        assert(json_views(out@) =~= self.list().map_values(|t: T| schema_of(t)));
        out
    }

    /// The tool to run for a call by `name`. An unknown name is an error that
    /// lists what there is, so that the model can pick a real one.
    pub fn dispatch(&self, name: &str) -> (r: Result<&T, BrainErr>)
        requires
            self.wf(),
        ensures
            match r {
                Ok(tool) => self.contents().contains_key(name@) && self.contents()[name@] == *tool,
                Err(e) => !self.contents().contains_key(name@) && e@ == BrainErrView::NotFound(
                    "no tool named `"@ + name@ + "`; available tools: ["@ + joined(
                        names_of(self.list()),
                        ", "@,
                    ) + "]"@,
                ),
            },
    {
        match self.get(name) {
            Some(tool) => Ok(tool),
            None => {
                let mut message = "no tool named `".to_owned();
                message.append(name);
                message.append("`; available tools: [");
                message.append(join(&self.names(), ", ").as_str());
                message.append("]");
                Err(BrainErr::NotFound(message))
            },
        }
    }

    /// The registry of all `tools`, later ones replacing earlier ones of the same
    /// name.
    pub fn from_tools(tools: Vec<T>) -> (r: Self)
        ensures
            r.wf(),
            r.contents() =~= registered(tools@),
    {
        let mut out = Self::new();
        let ghost all = tools@;
        let mut rest = tools;
        let mut front: Vec<T> = Vec::new();
        while rest.len() > 0
            invariant
                all =~= rest@ + front@.reverse(),
            decreases rest@.len(),
        {
            match rest.pop() {
                Some(tool) => {
                    front.push(tool);
                },
                None => {},
            }
        }
        assert(all =~= front@.reverse());
        let ghost mut done: int = 0;
        assert(all.take(0) =~= Seq::<T>::empty());
        while front.len() > 0
            invariant
                out.wf(),
                0 <= done,
                done + front@.len() == all.len(),
                all.skip(done) =~= front@.reverse(),
                out.contents() =~= registered(all.take(done)),
            decreases front@.len(),
        {
            let ghost last = front@.last();
            match front.pop() {
                Some(tool) => {
                    proof {
                        assert(all.skip(done)[0] == all[done]);
                        assert(tool == all[done]);
                        assert(all.take(done + 1).drop_last() =~= all.take(done));
                        done = done + 1;
                        assert forall|k: int| 0 <= k < front@.len() implies all.skip(done)[k]
                            == front@.reverse()[k] by {
                            assert(all.skip(done - 1)[k + 1] == all.skip(done)[k]);
                        }
                    }
                    out.register(tool);
                },
                None => {},
            }
        }
        assert(all.take(all.len() as int) =~= all);
        out
    }
}

impl<T: Tool> ToolRegistry<Arc<T>> {
    /// Add a tool that is held elsewhere, too.
    pub fn register_arc(&mut self, tool: Arc<T>)
        requires
            old(self).wf(),
        ensures
            final(self).wf(),
            final(self).contents() =~= old(self).contents().insert(tool.called(), tool),
    {
        self.register(tool);
    }

    /// [`ToolRegistry::register_arc`] for chaining at construction.
    #[must_use]
    pub fn with_arc(self, tool: Arc<T>) -> (r: Self)
        requires
            self.wf(),
        ensures
            r.wf(),
            r.contents() =~= self.contents().insert(tool.called(), tool),
    {
        self.with(tool)
    }
}

/// What a registry holds after registering every one of `tools` in turn.
pub open spec fn registered<T: Tool>(tools: Seq<T>) -> Map<Seq<char>, T>
    decreases tools.len(),
{
    if tools.len() == 0 {
        Map::empty()
    } else {
        registered(tools.drop_last()).insert(tools.last().called(), tools.last())
    }
}

/// The order in which the model sees the tools depends only on what the registry
/// holds, never on the order of registration.
pub proof fn the_prompt_is_reproducible<T: Tool>(a: &ToolRegistry<T>, b: &ToolRegistry<T>)
    requires
        a.wf(),
        b.wf(),
        a.contents() == b.contents(),
    ensures
        a.list() == b.list(),
{
    same_names_same_list(a.list(), b.list());
}

proof fn same_names_same_list<T: Tool>(a: Seq<T>, b: Seq<T>)
    requires
        ascending(names_of(a)),
        ascending(names_of(b)),
        by_name(a) == by_name(b),
    ensures
        a == b,
    decreases a.len(),
{
    let x = names_of(a);
    let y = names_of(b);
    assert forall|n: Seq<char>| #[trigger] x.contains(n) == y.contains(n) by {
        assert(by_name(a).contains_key(n) == x.contains(n));
        assert(by_name(b).contains_key(n) == y.contains(n));
    }
    if a.len() == 0 {
        if b.len() > 0 {
            assert(y.contains(y[0]));
            assert(x.contains(y[0]));
        }
        assert(a =~= b);
    } else {
        assert(x.contains(x.last()));
        assert(y.contains(x.last()));
        assert(b.len() > 0);
        assert(y.contains(y.last()));
        assert(x.contains(y.last()));
        let i = y.index_of(x.last());
        let j = x.index_of(y.last());
        assert(y[i] == x.last());
        assert(x[j] == y.last());
        if i < y.len() - 1 && j < x.len() - 1 {
            assert(text_less(y[i], y[y.len() - 1]));
            assert(text_less(x[j], x[x.len() - 1]));
            text_order(x.last(), y.last());
        }
        if i == y.len() - 1 {
            assert(x.last() == y.last());
        } else {
            assert(j == x.len() - 1);
            assert(x.last() == y.last());
        }
        let la = a.last();
        let lb = b.last();
        ascending_is_injective(x, x.len() - 1);
        ascending_is_injective(y, y.len() - 1);
        assert(by_name(a)[x.last()] == la);
        assert(by_name(b)[x.last()] == lb);
        let ra = a.drop_last();
        let rb = b.drop_last();
        let rx = names_of(ra);
        let ry = names_of(rb);
        assert(rx =~= x.drop_last());
        assert(ry =~= y.drop_last());
        assert(by_name(ra) =~= by_name(rb)) by {
            assert forall|n: Seq<char>| #[trigger] by_name(ra).contains_key(n) <==> by_name(rb).contains_key(n) by {
                dropping_the_last_name(x, n);
                dropping_the_last_name(y, n);
            }
            assert forall|n: Seq<char>| #[trigger] by_name(ra).contains_key(n) implies by_name(ra)[n]
                == by_name(rb)[n] by {
                dropping_the_last_name(x, n);
                dropping_the_last_name(y, n);
                let k = rx.index_of(n);
                let m = ry.index_of(n);
                assert(rx[k] == n && x[k] == n);
                assert(ry[m] == n && y[m] == n);
                ascending_is_injective(x, k);
                ascending_is_injective(y, m);
                assert(by_name(a)[n] == a[k]);
                assert(by_name(b)[n] == b[m]);
            }
        }
        same_names_same_list(ra, rb);
        assert(a =~= ra.push(la));
        assert(b =~= rb.push(lb));
    }
}

proof fn dropping_the_last_name(names: Seq<Seq<char>>, n: Seq<char>)
    requires
        ascending(names),
        names.len() > 0,
    ensures
        names.drop_last().contains(n) <==> names.contains(n) && n != names.last(),
{
    let rest = names.drop_last();
    if rest.contains(n) {
        let k = rest.index_of(n);
        assert(rest[k] == n);
        assert(names[k] == n);
        text_order(names[k], names[names.len() - 1]);
    }
    if names.contains(n) && n != names.last() {
        let k = names.index_of(n);
        assert(names[k] == n);
        assert(rest[k] == n);
    }
}

/// A schema names its tool, describes it and declares its parameters, each as given.
pub proof fn a_schema_names_its_tool(name: Seq<char>, description: JsonView, parameters: JsonView)
    ensures
        function_schema(name, description, parameters).get("type"@) == Some(
            JsonView::Str("function"@),
        ),
        function_schema(name, description, parameters).get("function"@) matches Some(function) && {
            &&& function.get("name"@) == Some(JsonView::Str(name))
            &&& function.get("description"@) == Some(description)
            &&& function.get("parameters"@) == Some(parameters)
        },
{
    reveal_strlit("type");
    reveal_strlit("function");
    reveal_strlit("name");
    reveal_strlit("description");
    reveal_strlit("parameters");
    reveal_with_fuel(crate::json::member, 4);
    assert("type"@.len() == 4 && "function"@.len() == 8);
    assert("name"@.len() == 4 && "description"@.len() == 11 && "parameters"@.len() == 10);
    let function = function_schema(name, description, parameters).get("function"@)->0;
    assert(function.get("name"@) == Some(JsonView::Str(name)));
}

/// Registering a list keeps, under each name that occurs in it, the last tool of that
/// name, and nothing under any other name.
pub proof fn the_last_tool_of_a_name_counts<T: Tool>(tools: Seq<T>, name: Seq<char>)
    ensures
        registered(tools).contains_key(name) <==> exists|i: int|
            0 <= i < tools.len() && (#[trigger] tools[i]).called() == name,
        registered(tools).contains_key(name) ==> exists|i: int|
            0 <= i < tools.len() && (#[trigger] tools[i]).called() == name && registered(tools)[name]
                == tools[i] && forall|j: int|
                i < j < tools.len() ==> (#[trigger] tools[j]).called() != name,
    decreases tools.len(),
{
    if tools.len() > 0 {
        let before = tools.drop_last();
        the_last_tool_of_a_name_counts(before, name);
        if tools.last().called() == name {
            assert(tools[tools.len() - 1].called() == name);
        } else {
            if registered(before).contains_key(name) {
                let i = choose|i: int|
                    0 <= i < before.len() && (#[trigger] before[i]).called() == name
                        && registered(before)[name] == before[i] && forall|j: int|
                        i < j < before.len() ==> (#[trigger] before[j]).called() != name;
                assert(tools[i] == before[i]);
                assert forall|j: int| i < j < tools.len() implies (#[trigger] tools[j]).called()
                    != name by {
                    if j < before.len() {
                        assert(before[j] == tools[j]);
                    }
                }
            }
            if exists|i: int| 0 <= i < tools.len() && (#[trigger] tools[i]).called() == name {
                let i = choose|i: int|
                    0 <= i < tools.len() && (#[trigger] tools[i]).called() == name;
                assert(before[i].called() == name);
            }
        }
    }
}

/// What is registered under a name is a tool of that name that was put in, and every tool
/// put in is found under its name.
pub proof fn a_tool_is_found_under_its_name<T: Tool>(registry: &ToolRegistry<T>, i: int)
    requires
        registry.wf(),
        0 <= i < registry.list().len(),
    ensures
        registry.contents().contains_key(registry.list()[i].called()),
        registry.contents()[registry.list()[i].called()] == registry.list()[i],
        forall|name: Seq<char>| #[trigger]
            registry.contents().contains_key(name) ==> registry.contents()[name].called() == name
                && registry.list().contains(registry.contents()[name]),
{
    let names = names_of(registry.list());
    ascending_is_injective(names, i);
    assert(names[i] == registry.list()[i].called());
    assert forall|name: Seq<char>| #[trigger]
        registry.contents().contains_key(name) implies registry.contents()[name].called() == name
        && registry.list().contains(registry.contents()[name]) by {
        let k = names.index_of(name);
        assert(names[k] == name);
        assert(registry.list()[k] == registry.contents()[name]);
    }
}

/// The schema of a tool names it as it names itself, with its own description and
/// parameters.
pub proof fn a_schema_is_the_tools_own<T: Tool>(tool: T)
    ensures
        schema_of(tool).get("type"@) == Some(JsonView::Str("function"@)),
        schema_of(tool).get("function"@) matches Some(function) && {
            &&& function.get("name"@) == Some(JsonView::Str(tool.called()))
            &&& function.get("description"@) == Some(JsonView::Str(tool.described()))
            &&& function.get("parameters"@) == Some(tool.takes())
        },
{
    a_schema_names_its_tool(tool.called(), JsonView::Str(tool.described()), tool.takes());
}

} // verus!
