//! Lexical scopes and the chain of them that a program runs against.
//!
//! A scope maps names to variables, script functions and native functions.
//! A chain is a stack of scopes: the bottom one is global, and each call of
//! a script function pushes one and pops it again. Names resolve from the
//! innermost scope outward.

use crate::ast::{
    bindings_view, copy_value, names_view, values_view, Function, FunctionView, Value, ValueView,
};
use crate::table::{entries_map, lemma_first_index, lemma_update_map, Table};
use std::rc::Rc;
use vstd::prelude::*;

verus! {

/// The variables and script functions of one scope, as mathematics.
pub struct FrameView {
    pub funcs: Map<Seq<char>, FunctionView>,
    pub vars: Map<Seq<char>, ValueView>,
}

/// The frames of a chain, as mathematics.
pub type FramesView = Seq<FrameView>;

/// A list of values, as mathematics.
pub type ValuesView = Seq<ValueView>;

/// A capability that the host registers under a name for scripts to call.
///
/// It is handed the variables and script functions of the chain, which it
/// may read and rebind, and the argument values. What it returns and
/// leaves behind must be a function of what it was handed: `outcome`
/// names that function. Nothing here checks an implementation against
/// this; what the evaluator says of a program that calls a native
/// function rests on it.
pub trait NativeFunction {
    /// What a call returns and what it leaves of the frames. An
    /// implementation that does not say otherwise returns `Null` and
    /// leaves the frames as they are.
    open spec fn outcome(&self, frames: FramesView, args: ValuesView) -> (ValueView, FramesView) {
        (ValueView::Null, frames)
    }

    /// Calls the capability.
    fn execute(&self, scopes: &mut Frames, args: &Vec<Value>) -> (r: Value)
        ensures
            (r@, final(scopes)@) == self.outcome(old(scopes)@, values_view(args@)),
    ;
}

/// A shared handle to a native function.
pub type Native = Rc<Box<dyn NativeFunction>>;

/// The views of the values of a table.
pub open spec fn deep_values(m: Map<Seq<char>, Value>) -> Map<Seq<char>, ValueView> {
    Map::new(|k: Seq<char>| m.contains_key(k), |k: Seq<char>| m[k]@)
}

/// The views of the script functions of a table.
pub open spec fn deep_funcs(m: Map<Seq<char>, Rc<Function>>) -> Map<Seq<char>, FunctionView> {
    Map::new(|k: Seq<char>| m.contains_key(k), |k: Seq<char>| function_view(m[k]))
}

/// The view of a shared script function.
pub open spec fn function_view(f: Rc<Function>) -> FunctionView {
    (*f)@
}

/// The innermost binding of a variable, if any scope binds it.
pub open spec fn lookup_var(frames: Seq<FrameView>, k: Seq<char>) -> Option<ValueView>
    decreases frames.len(),
{
    if frames.len() == 0 {
        None
    } else if frames.last().vars.contains_key(k) {
        Some(frames.last().vars[k])
    } else {
        lookup_var(frames.drop_last(), k)
    }
}

/// The innermost definition of a script function, if any scope has one.
pub open spec fn lookup_func(frames: Seq<FrameView>, k: Seq<char>) -> Option<FunctionView>
    decreases frames.len(),
{
    if frames.len() == 0 {
        None
    } else if frames.last().funcs.contains_key(k) {
        Some(frames.last().funcs[k])
    } else {
        lookup_func(frames.drop_last(), k)
    }
}

/// The innermost registration of a native function, if any scope has one.
pub open spec fn lookup_native(natives: Seq<Map<Seq<char>, Native>>, k: Seq<char>) -> Option<
    Native,
>
    decreases natives.len(),
{
    if natives.len() == 0 {
        None
    } else if natives.last().contains_key(k) {
        Some(natives.last()[k])
    } else {
        lookup_native(natives.drop_last(), k)
    }
}

/// The frames after binding a variable in the innermost scope. Without a
/// scope there is nothing to bind in.
pub open spec fn with_var(frames: Seq<FrameView>, k: Seq<char>, v: ValueView) -> Seq<FrameView> {
    if frames.len() == 0 {
        frames
    } else {
        frames.update(
            frames.len() - 1,
            FrameView { funcs: frames.last().funcs, vars: frames.last().vars.insert(k, v) },
        )
    }
}

/// The frames after defining a script function in the innermost scope.
pub open spec fn with_func(frames: Seq<FrameView>, k: Seq<char>, f: FunctionView) -> Seq<
    FrameView,
> {
    if frames.len() == 0 {
        frames
    } else {
        frames.update(
            frames.len() - 1,
            FrameView { funcs: frames.last().funcs.insert(k, f), vars: frames.last().vars },
        )
    }
}

/// A list with `v` at place `i`, grown with `Null` where it was shorter.
pub open spec fn list_with(items: Seq<ValueView>, i: nat, v: ValueView) -> Seq<ValueView> {
    Seq::new(
        if i < items.len() {
            items.len()
        } else {
            i + 1
        },
        |j: int|
            if j == i {
                v
            } else if j < items.len() {
                items[j]
            } else {
                ValueView::Null
            },
    )
}

/// The frames after assigning to a place of a list: the innermost scope
/// whose variable of that name is a list gets the new list; where there is
/// none, nothing changes.
pub open spec fn with_list_item(frames: Seq<FrameView>, k: Seq<char>, i: nat, v: ValueView) -> Seq<
    FrameView,
>
    decreases frames.len(),
{
    if frames.len() == 0 {
        frames
    } else {
        let top = frames.last();
        if top.vars.contains_key(k) && top.vars[k] is List {
            frames.update(
                frames.len() - 1,
                FrameView {
                    funcs: top.funcs,
                    vars: top.vars.insert(
                        k,
                        ValueView::List(list_with(top.vars[k]->List_0, i, v)),
                    ),
                },
            )
        } else {
            with_list_item(frames.drop_last(), k, i, v).push(top)
        }
    }
}

/// The frames after assigning to a key of a dict: the innermost scope
/// whose variable of that name is a dict gets the key bound; where there
/// is none, nothing changes.
pub open spec fn with_dict_item(
    frames: Seq<FrameView>,
    k: Seq<char>,
    key: Seq<char>,
    v: ValueView,
) -> Seq<FrameView>
    decreases frames.len(),
{
    if frames.len() == 0 {
        frames
    } else {
        let top = frames.last();
        if top.vars.contains_key(k) && top.vars[k] is Dict {
            frames.update(
                frames.len() - 1,
                FrameView {
                    funcs: top.funcs,
                    vars: top.vars.insert(k, ValueView::Dict(top.vars[k]->Dict_0.insert(key, v))),
                },
            )
        } else {
            with_dict_item(frames.drop_last(), k, key, v).push(top)
        }
    }
}

/// A frame that binds nothing.
pub open spec fn empty_frame() -> FrameView {
    FrameView { funcs: Map::empty(), vars: Map::empty() }
}

/// The first `n` of the frames, with empty frames behind them where there
/// are fewer than `n`.
pub open spec fn fit(frames: Seq<FrameView>, n: nat) -> Seq<FrameView> {
    Seq::new(
        n,
        |i: int|
            if i < frames.len() {
                frames[i]
            } else {
                empty_frame()
            },
    )
}

/// The bindings of the first `n` parameters to the first `n` values.
pub open spec fn bound_args(params: Seq<Seq<char>>, values: Seq<ValueView>, n: nat) -> Map<
    Seq<char>,
    ValueView,
>
    decreases n,
{
    if n == 0 || n > params.len() || n > values.len() {
        Map::empty()
    } else {
        bound_args(params, values, (n - 1) as nat).insert(params[n - 1], values[n - 1])
    }
}

/// The variables of a call: each parameter bound to the value in its
/// place. A parameter without a value stays unbound, and a value without a
/// parameter is dropped.
pub open spec fn args_map(params: Seq<Seq<char>>, values: Seq<ValueView>) -> Map<
    Seq<char>,
    ValueView,
> {
    bound_args(
        params,
        values,
        if params.len() <= values.len() {
            params.len()
        } else {
            values.len()
        },
    )
}

/// The variables and script functions of one scope.
pub struct Frame {
    pub funcs: Table<Rc<Function>>,
    pub vars: Table<Value>,
}

impl View for Frame {
    type V = FrameView;

    open spec fn view(&self) -> FrameView {
        FrameView { funcs: deep_funcs(self.funcs@), vars: deep_values(self.vars@) }
    }
}

/// The variables and script functions of all scopes of a chain, innermost
/// last.
pub struct Frames {
    frames: Vec<Frame>,
}

impl View for Frames {
    type V = Seq<FrameView>;

    closed spec fn view(&self) -> Seq<FrameView> {
        Seq::new(self.frames@.len(), |i: int| self.frames@[i]@)
    }
}

/// Looking a variable up sees only the topmost frame that binds it.
proof fn lemma_lookup_var_take(frames: Seq<FrameView>, k: Seq<char>, n: int)
    requires
        0 <= n <= frames.len(),
        forall|j: int| n <= j < frames.len() ==> !(#[trigger] frames[j]).vars.contains_key(k),
    ensures
        lookup_var(frames, k) == lookup_var(frames.take(n), k),
    decreases frames.len() - n,
{
    if n < frames.len() {
        assert(frames.drop_last().take(n) == frames.take(n));
        lemma_lookup_var_take(frames.drop_last(), k, n);
    } else {
        assert(frames.take(n) == frames);
    }
}

/// Looking a function up sees only the topmost frame that defines it.
proof fn lemma_lookup_func_take(frames: Seq<FrameView>, k: Seq<char>, n: int)
    requires
        0 <= n <= frames.len(),
        forall|j: int| n <= j < frames.len() ==> !(#[trigger] frames[j]).funcs.contains_key(k),
    ensures
        lookup_func(frames, k) == lookup_func(frames.take(n), k),
    decreases frames.len() - n,
{
    if n < frames.len() {
        assert(frames.drop_last().take(n) == frames.take(n));
        lemma_lookup_func_take(frames.drop_last(), k, n);
    } else {
        assert(frames.take(n) == frames);
    }
}

/// An assignment to a list place passes over the frames that hold no list
/// of that name.
proof fn lemma_list_item_take(frames: Seq<FrameView>, k: Seq<char>, i: nat, v: ValueView, n: int)
    requires
        0 <= n <= frames.len(),
        forall|j: int|
            n <= j < frames.len() ==> !((#[trigger] frames[j]).vars.contains_key(k)
                && frames[j].vars[k] is List),
    ensures
        with_list_item(frames, k, i, v) == with_list_item(frames.take(n), k, i, v) + frames.skip(n),
    decreases frames.len() - n,
{
    if n < frames.len() {
        let rest = frames.drop_last();
        assert(rest.take(n) == frames.take(n));
        lemma_list_item_take(rest, k, i, v, n);
        assert((with_list_item(rest.take(n), k, i, v) + rest.skip(n)).push(frames.last())
            =~= with_list_item(frames.take(n), k, i, v) + frames.skip(n));
    } else {
        assert(frames.take(n) == frames);
        assert(with_list_item(frames, k, i, v) + frames.skip(n) =~= with_list_item(
            frames,
            k,
            i,
            v,
        ));
    }
}

/// An assignment to a dict key passes over the frames that hold no dict
/// of that name.
proof fn lemma_dict_item_take(
    frames: Seq<FrameView>,
    k: Seq<char>,
    key: Seq<char>,
    v: ValueView,
    n: int,
)
    requires
        0 <= n <= frames.len(),
        forall|j: int|
            n <= j < frames.len() ==> !((#[trigger] frames[j]).vars.contains_key(k)
                && frames[j].vars[k] is Dict),
    ensures
        with_dict_item(frames, k, key, v) == with_dict_item(frames.take(n), k, key, v)
            + frames.skip(n),
    decreases frames.len() - n,
{
    if n < frames.len() {
        let rest = frames.drop_last();
        assert(rest.take(n) == frames.take(n));
        lemma_dict_item_take(rest, k, key, v, n);
        assert((with_dict_item(rest.take(n), k, key, v) + rest.skip(n)).push(frames.last())
            =~= with_dict_item(frames.take(n), k, key, v) + frames.skip(n));
    } else {
        assert(frames.take(n) == frames);
        assert(with_dict_item(frames, k, key, v) + frames.skip(n) =~= with_dict_item(
            frames,
            k,
            key,
            v,
        ));
    }
}

/// An assignment to a list place keeps the number of frames.
pub proof fn lemma_list_item_depth(frames: Seq<FrameView>, k: Seq<char>, i: nat, v: ValueView)
    ensures
        with_list_item(frames, k, i, v).len() == frames.len(),
    decreases frames.len(),
{
    if frames.len() > 0 {
        lemma_list_item_depth(frames.drop_last(), k, i, v);
    }
}

/// An assignment to a dict key keeps the number of frames.
pub proof fn lemma_dict_item_depth(frames: Seq<FrameView>, k: Seq<char>, key: Seq<char>, v: ValueView)
    ensures
        with_dict_item(frames, k, key, v).len() == frames.len(),
    decreases frames.len(),
{
    if frames.len() > 0 {
        lemma_dict_item_depth(frames.drop_last(), k, key, v);
    }
}

/// The map that the entries of a dict stand for holds the views of the
/// values of the table.
pub proof fn lemma_bindings_deep(es: Seq<(String, Value)>)
    ensures
        bindings_view(es) == deep_values(entries_map(es)),
{
    assert forall|k: Seq<char>| #[trigger]
        bindings_view(es).contains_key(k) implies bindings_view(es)[k] == deep_values(
        entries_map(es),
    )[k] by {
        lemma_first_index(es, k);
    }
    assert(bindings_view(es) =~= deep_values(entries_map(es)));
}

impl Frames {
    /// The number of frames.
    pub fn depth(&self) -> (n: usize)
        ensures
            n == self@.len(),
    {
        self.frames.len()
    }

    /// No frames.
    pub(crate) fn new() -> (r: Self)
        ensures
            r@ == Seq::<FrameView>::empty(),
    {
        let r = Frames { frames: Vec::new() };
        assert(r@ =~= Seq::<FrameView>::empty());
        r
    }

    /// Puts a frame on top.
    pub(crate) fn push(&mut self, frame: Frame)
        ensures
            final(self)@ == old(self)@.push(frame@),
    {
        self.frames.push(frame);
        assert(self@ =~= old(self)@.push(frame@));
    }

    /// Takes the top frame off.
    pub(crate) fn pop(&mut self) -> (r: Option<Frame>)
        ensures
            old(self)@.len() == 0 ==> r is None && final(self)@ == old(self)@,
            old(self)@.len() > 0 ==> r is Some && r->0@ == old(self)@.last() && final(self)@
                == old(self)@.drop_last(),
    {
        let r = self.frames.pop();
        if r.is_some() {
            assert(self@ =~= old(self)@.drop_last());
        } else {
            assert(self@ =~= old(self)@);
        }
        r
    }

    /// Drops frames from the top or puts empty frames on top until there
    /// are `n` of them.
    pub(crate) fn fit(&mut self, n: usize)
        ensures
            final(self)@ == fit(old(self)@, n as nat),
    {
        while self.frames.len() > n
            invariant
                fit(self@, n as nat) == fit(old(self)@, n as nat),
            decreases self.frames.len(),
        {
            let ghost before = self@;
            self.frames.pop();
            assert(fit(self@, n as nat) =~= fit(before, n as nat));
        }
        while self.frames.len() < n
            invariant
                self@.len() <= n,
                fit(self@, n as nat) == fit(old(self)@, n as nat),
            decreases n - self.frames.len(),
        {
            let ghost before = self@;
            let frame = Frame { funcs: Table::new(), vars: Table::new() };
            assert(frame@.funcs =~= empty_frame().funcs);
            assert(frame@.vars =~= empty_frame().vars);
            self.frames.push(frame);
            assert(fit(self@, n as nat) =~= fit(before, n as nat));
        }
        assert(self@ =~= fit(self@, n as nat));
    }

    /// The innermost binding of the variable `key`.
    pub fn resolve_var(&self, key: &str) -> (r: Option<&Value>)
        ensures
            match r {
                Some(v) => lookup_var(self@, key@) == Some(v@),
                None => lookup_var(self@, key@) is None,
            },
    {
        let mut i: usize = self.frames.len();
        while i > 0
            invariant
                i <= self.frames.len(),
                forall|j: int| i <= j < self@.len() ==> !(#[trigger] self@[j]).vars.contains_key(key@),
            decreases i,
        {
            i -= 1;
            match self.frames[i].vars.get(key) {
                Some(v) => {
                    proof {
                        lemma_lookup_var_take(self@, key@, i + 1);
                        assert(self@.take(i + 1).last() == self@[i as int]);
                    }
                    return Some(v);
                },
                None => {},
            }
        }
        proof {
            lemma_lookup_var_take(self@, key@, 0);
        }
        None
    }

    /// The innermost definition of the script function `key`.
    pub fn resolve_func(&self, key: &str) -> (r: Option<Rc<Function>>)
        ensures
            match r {
                Some(f) => lookup_func(self@, key@) == Some(f@),
                None => lookup_func(self@, key@) is None,
            },
    {
        let mut i: usize = self.frames.len();
        while i > 0
            invariant
                i <= self.frames.len(),
                forall|j: int|
                    i <= j < self@.len() ==> !(#[trigger] self@[j]).funcs.contains_key(key@),
            decreases i,
        {
            i -= 1;
            match self.frames[i].funcs.get(key) {
                Some(f) => {
                    proof {
                        lemma_lookup_func_take(self@, key@, i + 1);
                        assert(self@.take(i + 1).last() == self@[i as int]);
                    }
                    return Some(Rc::clone(f));
                },
                None => {},
            }
        }
        proof {
            lemma_lookup_func_take(self@, key@, 0);
        }
        None
    }

    /// Binds the variable `key` in the innermost scope.
    pub fn insert_var(&mut self, key: &str, val: Value)
        ensures
            final(self)@ == with_var(old(self)@, key@, val@),
    {
        let n = self.frames.len();
        if n > 0 {
            self.frames[n - 1].vars.insert(key, val);
            assert(self@ =~= with_var(old(self)@, key@, val@)) by {
                assert(self@[n - 1].vars =~= old(self)@[n - 1].vars.insert(key@, val@));
            }
        }
    }

    /// Defines the script function `key` in the innermost scope.
    pub fn insert_func(&mut self, key: &str, val: Function)
        ensures
            final(self)@ == with_func(old(self)@, key@, val@),
    {
        let n = self.frames.len();
        if n > 0 {
            self.frames[n - 1].funcs.insert(key, Rc::new(val));
            assert(self@ =~= with_func(old(self)@, key@, val@)) by {
                assert(self@[n - 1].funcs =~= old(self)@[n - 1].funcs.insert(key@, val@));
            }
        }
    }

    /// Assigns `val` to place `idx` of the innermost list named `key`,
    /// growing the list with `Null` where it is shorter. Without such a
    /// list nothing happens.
    pub fn insert_list_item(&mut self, key: &str, idx: usize, val: Value)
        requires
            idx < usize::MAX,
        ensures
            final(self)@ == with_list_item(old(self)@, key@, idx as nat, val@),
    {
        let mut i: usize = self.frames.len();
        while i > 0
            invariant
                idx < usize::MAX,
                i <= self.frames.len(),
                self.frames@ == old(self).frames@,
                forall|j: int|
                    i <= j < self@.len() ==> !((#[trigger] self@[j]).vars.contains_key(key@)
                        && self@[j].vars[key@] is List),
            decreases i,
        {
            i -= 1;
            match self.frames[i].vars.find(key) {
                Some(j) => {
                    let is_list = match self.frames[i].vars.value_at(j) {
                        Value::List(_) => true,
                        _ => false,
                    };
                    if is_list {
                        let ghost es = self.frames@[i as int].vars.entries@;
                        let ghost before = self@;
                        proof {
                            lemma_first_index(es, key@);
                            lemma_list_item_take(before, key@, idx as nat, val@, i + 1);
                            assert(before.take(i + 1).last() == before[i as int]);
                        }
                        let taken = self.frames[i].vars.replace_at(j, Value::Null);
                        match taken {
                            Value::List(mut items) => {
                                let ghost start = values_view(items@);
                                while items.len() <= idx
                                    invariant
                                        idx < usize::MAX,
                                        items@.len() >= start.len(),
                                        forall|a: int|
                                            0 <= a < start.len() ==> (#[trigger] items@[a])@
                                                == start[a],
                                        forall|a: int|
                                            start.len() <= a < items@.len() ==> (
                                            #[trigger] items@[a])@ == ValueView::Null,
                                        items@.len() > start.len() ==> items@.len() <= idx + 1,
                                    decreases idx + 1 - items.len(),
                                {
                                    items.push(Value::Null);
                                }
                                items.set(idx, val);
                                assert(values_view(items@) =~= list_with(start, idx as nat, val@));
                                let ghost fresh = Value::List(items);
                                self.frames[i].vars.replace_at(j, Value::List(items));
                                proof {
                                    assert(self.frames@[i as int].vars.entries@ =~= es.update(
                                        j as int,
                                        (es[j as int].0, fresh),
                                    ));
                                    lemma_update_map(es, j as int, (es[j as int].0, fresh));
                                    assert(self@[i as int].vars =~= before[i as int].vars.insert(
                                        key@,
                                        fresh@,
                                    ));
                                    assert(self@[i as int].funcs == before[i as int].funcs);
                                    assert(self@ =~= with_list_item(
                                        before.take(i + 1),
                                        key@,
                                        idx as nat,
                                        val@,
                                    ) + before.skip(i + 1));
                                }
                            },
                            other => {
                                assert(false);
                                self.frames[i].vars.replace_at(j, other);
                            },
                        }
                        return ;
                    }
                },
                None => {},
            }
        }
        proof {
            lemma_list_item_take(self@, key@, idx as nat, val@, 0);
            assert(with_list_item(self@.take(0), key@, idx as nat, val@) + self@.skip(0) =~= self@);
        }
    }

    /// Binds `idx` to `val` in the innermost dict named `key`. Without
    /// such a dict nothing happens.
    pub fn insert_dict_item(&mut self, key: &str, idx: &str, val: Value)
        ensures
            final(self)@ == with_dict_item(old(self)@, key@, idx@, val@),
    {
        let mut i: usize = self.frames.len();
        while i > 0
            invariant
                i <= self.frames.len(),
                self.frames@ == old(self).frames@,
                forall|j: int|
                    i <= j < self@.len() ==> !((#[trigger] self@[j]).vars.contains_key(key@)
                        && self@[j].vars[key@] is Dict),
            decreases i,
        {
            i -= 1;
            match self.frames[i].vars.find(key) {
                Some(j) => {
                    let is_dict = match self.frames[i].vars.value_at(j) {
                        Value::Dict(_) => true,
                        _ => false,
                    };
                    if is_dict {
                        let ghost es = self.frames@[i as int].vars.entries@;
                        let ghost before = self@;
                        proof {
                            lemma_first_index(es, key@);
                            lemma_dict_item_take(before, key@, idx@, val@, i + 1);
                            assert(before.take(i + 1).last() == before[i as int]);
                        }
                        let taken = self.frames[i].vars.replace_at(j, Value::Null);
                        match taken {
                            Value::Dict(mut items) => {
                                proof {
                                    lemma_bindings_deep(items.entries@);
                                }
                                items.insert(idx, val);
                                proof {
                                    lemma_bindings_deep(items.entries@);
                                }
                                let ghost fresh = Value::Dict(items);
                                assert(fresh@ == ValueView::Dict(
                                    before[i as int].vars[key@]->Dict_0.insert(idx@, val@),
                                )) by {
                                    assert(bindings_view(items.entries@) =~= before[i as int].vars[key@]->Dict_0.insert(
                                    idx@, val@));
                                }
                                self.frames[i].vars.replace_at(j, Value::Dict(items));
                                proof {
                                    assert(self.frames@[i as int].vars.entries@ =~= es.update(
                                        j as int,
                                        (es[j as int].0, fresh),
                                    ));
                                    lemma_update_map(es, j as int, (es[j as int].0, fresh));
                                    assert(self@[i as int].vars =~= before[i as int].vars.insert(
                                        key@,
                                        fresh@,
                                    ));
                                    assert(self@[i as int].funcs == before[i as int].funcs);
                                    assert(self@ =~= with_dict_item(
                                        before.take(i + 1),
                                        key@,
                                        idx@,
                                        val@,
                                    ) + before.skip(i + 1));
                                }
                            },
                            other => {
                                assert(false);
                                self.frames[i].vars.replace_at(j, other);
                            },
                        }
                        return ;
                    }
                },
                None => {},
            }
        }
        proof {
            lemma_dict_item_take(self@, key@, idx@, val@, 0);
            assert(with_dict_item(self@.take(0), key@, idx@, val@) + self@.skip(0) =~= self@);
        }
    }
}

/// One scope as mathematics: its script functions, native functions and
/// variables.
pub struct ScopeView {
    pub funcs: Map<Seq<char>, FunctionView>,
    pub natives: Map<Seq<char>, Native>,
    pub vars: Map<Seq<char>, ValueView>,
}

impl ScopeView {
    /// The variables and script functions of the scope.
    pub open spec fn frame(self) -> FrameView {
        FrameView { funcs: self.funcs, vars: self.vars }
    }
}

/// One lexical scope: tables of script functions, native functions and
/// variables.
pub struct Scope {
    pub funcs: Table<Rc<Function>>,
    pub native_funcs: Table<Native>,
    pub vars: Table<Value>,
}

impl View for Scope {
    type V = ScopeView;

    open spec fn view(&self) -> ScopeView {
        ScopeView {
            funcs: deep_funcs(self.funcs@),
            natives: self.native_funcs@,
            vars: deep_values(self.vars@),
        }
    }
}

impl Scope {
    /// An empty scope.
    pub fn new() -> (r: Scope)
        ensures
            r@.funcs == Map::<Seq<char>, FunctionView>::empty(),
            r@.natives == Map::<Seq<char>, Native>::empty(),
            r@.vars == Map::<Seq<char>, ValueView>::empty(),
    {
        let r = Scope { funcs: Table::new(), native_funcs: Table::new(), vars: Table::new() };
        assert(r@.funcs =~= Map::<Seq<char>, FunctionView>::empty());
        assert(r@.vars =~= Map::<Seq<char>, ValueView>::empty());
        r
    }

    /// The scope of a call: each parameter bound to a copy of the value in
    /// its place. A surplus parameter stays unbound; a surplus value is
    /// dropped.
    pub fn from_args(params: &Vec<String>, values: &Vec<Value>) -> (r: Scope)
        ensures
            r@.funcs == Map::<Seq<char>, FunctionView>::empty(),
            r@.natives == Map::<Seq<char>, Native>::empty(),
            r@.vars == args_map(names_view(params@), values_view(values@)),
    {
        let mut scope = Scope::new();
        let n: usize = if params.len() <= values.len() {
            params.len()
        } else {
            values.len()
        };
        let mut i: usize = 0;
        assert(scope@.vars =~= bound_args(names_view(params@), values_view(values@), 0));
        while i < n
            invariant
                i <= n,
                n <= params.len(),
                n <= values.len(),
                scope@.funcs == Map::<Seq<char>, FunctionView>::empty(),
                scope@.natives == Map::<Seq<char>, Native>::empty(),
                scope@.vars == bound_args(names_view(params@), values_view(values@), i as nat),
            decreases n - i,
        {
            let v = copy_value(&values[i]);
            scope.vars.insert(params[i].as_str(), v);
            i += 1;
            assert(scope@.vars =~= bound_args(
                names_view(params@),
                values_view(values@),
                i as nat,
            ));
        }
        scope
    }
}

/// A chain of scopes as mathematics: the frames of variables and script
/// functions, and beside each frame the native functions of its scope.
pub struct ChainView {
    pub frames: Seq<FrameView>,
    pub natives: Seq<Map<Seq<char>, Native>>,
}

impl ChainView {
    /// Every scope has a frame and a table of native functions.
    pub open spec fn well_formed(self) -> bool {
        self.frames.len() == self.natives.len()
    }

    /// The number of scopes.
    pub open spec fn depth(self) -> nat {
        self.frames.len()
    }

    /// The chain with one more scope on top.
    pub open spec fn push(self, scope: ScopeView) -> ChainView {
        ChainView { frames: self.frames.push(scope.frame()), natives: self.natives.push(scope.natives) }
    }

    /// The chain without its top scope.
    pub open spec fn pop(self) -> ChainView {
        ChainView { frames: self.frames.drop_last(), natives: self.natives.drop_last() }
    }

    /// The top scope.
    pub open spec fn top(self) -> ScopeView {
        ScopeView {
            funcs: self.frames.last().funcs,
            natives: self.natives.last(),
            vars: self.frames.last().vars,
        }
    }

    /// The chain with other frames and the same native functions.
    pub open spec fn with_frames(self, frames: Seq<FrameView>) -> ChainView {
        ChainView { frames, natives: self.natives }
    }

    /// The innermost binding of a variable.
    pub open spec fn resolve_var(self, k: Seq<char>) -> Option<ValueView> {
        lookup_var(self.frames, k)
    }

    /// The innermost definition of a script function.
    pub open spec fn resolve_func(self, k: Seq<char>) -> Option<FunctionView> {
        lookup_func(self.frames, k)
    }

    /// The innermost registration of a native function.
    pub open spec fn resolve_native_func(self, k: Seq<char>) -> Option<Native> {
        lookup_native(self.natives, k)
    }
}

/// A stack of scopes. All evaluation and execution happens against one.
pub struct ScopeChain {
    frames: Frames,
    natives: Vec<Table<Native>>,
}

impl View for ScopeChain {
    type V = ChainView;

    closed spec fn view(&self) -> ChainView {
        ChainView {
            frames: self.frames@,
            natives: Seq::new(self.natives@.len(), |i: int| self.natives@[i]@),
        }
    }
}

/// Looking a native function up sees only the topmost table that has it.
proof fn lemma_lookup_native_take(natives: Seq<Map<Seq<char>, Native>>, k: Seq<char>, n: int)
    requires
        0 <= n <= natives.len(),
        forall|j: int| n <= j < natives.len() ==> !(#[trigger] natives[j]).contains_key(k),
    ensures
        lookup_native(natives, k) == lookup_native(natives.take(n), k),
    decreases natives.len() - n,
{
    if n < natives.len() {
        assert(natives.drop_last().take(n) == natives.take(n));
        lemma_lookup_native_take(natives.drop_last(), k, n);
    } else {
        assert(natives.take(n) == natives);
    }
}

impl ScopeChain {
    #[verifier::type_invariant]
    spec fn paired(&self) -> bool {
        self.frames@.len() == self.natives@.len()
    }

    /// An empty chain.
    pub fn new() -> (r: ScopeChain)
        ensures
            r@.frames == Seq::<FrameView>::empty(),
            r@.natives == Seq::<Map<Seq<char>, Native>>::empty(),
    {
        let r = ScopeChain { frames: Frames::new(), natives: Vec::new() };
        assert(r@.natives =~= Seq::<Map<Seq<char>, Native>>::empty());
        r
    }

    /// A chain with `scope` as its single, global scope.
    pub fn from_scope(scope: Scope) -> (r: ScopeChain)
        ensures
            r@.frames == seq![scope@.frame()],
            r@.natives == seq![scope@.natives],
    {
        let mut frames = Frames::new();
        let mut natives: Vec<Table<Native>> = Vec::new();
        frames.push(Frame { funcs: scope.funcs, vars: scope.vars });
        natives.push(scope.native_funcs);
        let r = ScopeChain { frames, natives };
        assert(r@.frames =~= seq![scope@.frame()]);
        assert(r@.natives =~= seq![scope@.natives]);
        r
    }

    /// The number of scopes. Every chain is well formed.
    pub fn depth(&self) -> (n: usize)
        ensures
            n == self@.depth(),
            self@.well_formed(),
    {
        proof {
            use_type_invariant(self);
        }
        self.frames.depth()
    }

    /// Pushes a scope onto the stack.
    pub fn push(&mut self, scope: Scope)
        ensures
            final(self)@ == old(self)@.push(scope@),
    {
        let mut held = ScopeChain::new();
        std::mem::swap(self, &mut held);
        proof {
            use_type_invariant(&held);
        }
        let ScopeChain { mut frames, mut natives } = held;
        frames.push(Frame { funcs: scope.funcs, vars: scope.vars });
        natives.push(scope.native_funcs);
        *self = ScopeChain { frames, natives };
        assert(self@.natives =~= old(self)@.natives.push(scope@.natives));
    }

    /// Pops the innermost scope from the stack, if there is one.
    pub fn pop(&mut self) -> (r: Option<Scope>)
        ensures
            old(self)@.depth() == 0 ==> r is None && final(self)@ == old(self)@,
            old(self)@.depth() > 0 ==> r is Some && r->0@ == old(self)@.top() && final(self)@
                == old(self)@.pop(),
    {
        let mut held = ScopeChain::new();
        std::mem::swap(self, &mut held);
        proof {
            use_type_invariant(&held);
        }
        let ScopeChain { mut frames, mut natives } = held;
        let frame = frames.pop();
        let table = natives.pop();
        *self = ScopeChain { frames, natives };
        match (frame, table) {
            (Some(f), Some(t)) => {
                assert(self@.natives =~= old(self)@.natives.drop_last());
                Some(Scope { funcs: f.funcs, native_funcs: t, vars: f.vars })
            },
            _ => {
                assert(self@.natives =~= old(self)@.natives);
                None
            },
        }
    }

    /// Defines the script function `key` in the innermost scope,
    /// replacing an earlier one of that name there.
    pub fn insert_func(&mut self, key: &str, val: Function)
        ensures
            final(self)@ == old(self)@.with_frames(with_func(old(self)@.frames, key@, val@)),
    {
        let mut held = ScopeChain::new();
        std::mem::swap(self, &mut held);
        proof {
            use_type_invariant(&held);
        }
        let ScopeChain { mut frames, natives } = held;
        frames.insert_func(key, val);
        *self = ScopeChain { frames, natives };
    }

    /// Binds the variable `key` in the innermost scope, replacing an
    /// earlier binding there and shadowing those of outer scopes.
    pub fn insert_var(&mut self, key: &str, val: Value)
        ensures
            final(self)@ == old(self)@.with_frames(with_var(old(self)@.frames, key@, val@)),
    {
        let mut held = ScopeChain::new();
        std::mem::swap(self, &mut held);
        proof {
            use_type_invariant(&held);
        }
        let ScopeChain { mut frames, natives } = held;
        frames.insert_var(key, val);
        *self = ScopeChain { frames, natives };
    }

    /// Assigns `val` to place `idx` of the innermost list named `key`,
    /// growing the list with `Null` where it is shorter. Without such a
    /// list nothing happens.
    pub fn insert_list_item(&mut self, key: &str, idx: usize, val: Value)
        requires
            idx < usize::MAX,
        ensures
            final(self)@ == old(self)@.with_frames(
                with_list_item(old(self)@.frames, key@, idx as nat, val@),
            ),
    {
        let mut held = ScopeChain::new();
        std::mem::swap(self, &mut held);
        proof {
            use_type_invariant(&held);
        }
        let ScopeChain { mut frames, natives } = held;
        frames.insert_list_item(key, idx, val);
        proof {
            lemma_list_item_depth(old(self)@.frames, key@, idx as nat, val@);
        }
        *self = ScopeChain { frames, natives };
    }

    /// Binds `idx` to `val` in the innermost dict named `key`. Without
    /// such a dict nothing happens.
    pub fn insert_dict_item(&mut self, key: &str, idx: &str, val: Value)
        ensures
            final(self)@ == old(self)@.with_frames(
                with_dict_item(old(self)@.frames, key@, idx@, val@),
            ),
    {
        let mut held = ScopeChain::new();
        std::mem::swap(self, &mut held);
        proof {
            use_type_invariant(&held);
        }
        let ScopeChain { mut frames, natives } = held;
        frames.insert_dict_item(key, idx, val);
        proof {
            lemma_dict_item_depth(old(self)@.frames, key@, idx@, val@);
        }
        *self = ScopeChain { frames, natives };
    }

    /// The innermost definition of the script function `key`.
    pub fn resolve_func(&self, key: &str) -> (r: Option<Rc<Function>>)
        ensures
            match r {
                Some(f) => self@.resolve_func(key@) == Some(f@),
                None => self@.resolve_func(key@) is None,
            },
    {
        self.frames.resolve_func(key)
    }

    /// The innermost registration of the native function `key`.
    pub fn resolve_native_func(&self, key: &str) -> (r: Option<Native>)
        ensures
            r == self@.resolve_native_func(key@),
    {
        let mut i: usize = self.natives.len();
        while i > 0
            invariant
                i <= self.natives.len(),
                forall|j: int|
                    i <= j < self@.natives.len() ==> !(#[trigger] self@.natives[j]).contains_key(
                        key@,
                    ),
            decreases i,
        {
            i -= 1;
            match self.natives[i].get(key) {
                Some(f) => {
                    proof {
                        lemma_lookup_native_take(self@.natives, key@, i + 1);
                        assert(self@.natives.take(i + 1).last() == self@.natives[i as int]);
                    }
                    return Some(Rc::clone(f));
                },
                None => {},
            }
        }
        proof {
            lemma_lookup_native_take(self@.natives, key@, 0);
        }
        None
    }

    /// The innermost binding of the variable `key`.
    pub fn resolve_var(&self, key: &str) -> (r: Option<&Value>)
        ensures
            match r {
                Some(v) => self@.resolve_var(key@) == Some(v@),
                None => self@.resolve_var(key@) is None,
            },
    {
        self.frames.resolve_var(key)
    }

    /// Calls a native function with the frames of this chain. Whatever
    /// the function does to the frames, the chain has afterwards as many
    /// scopes as before: frames that it added are dropped, and frames
    /// that it dropped come back empty.
    pub fn call_native(&mut self, f: &Native, args: &Vec<Value>) -> (r: Value)
        ensures
            r@ == f.outcome(old(self)@.frames, values_view(args@)).0,
            final(self)@.frames == fit(
                f.outcome(old(self)@.frames, values_view(args@)).1,
                old(self)@.depth(),
            ),
            final(self)@.natives == old(self)@.natives,
    {
        let mut held = ScopeChain::new();
        std::mem::swap(self, &mut held);
        proof {
            use_type_invariant(&held);
        }
        let ScopeChain { mut frames, natives } = held;
        let r = f.execute(&mut frames, args);
        frames.fit(natives.len());
        *self = ScopeChain { frames, natives };
        r
    }
}

} // verus!
