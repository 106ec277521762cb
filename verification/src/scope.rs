//! A scope: the bindings of one function call, or of the program itself,
//! and the functions that it can call.

use crate::ast::{clone_nodes, nodes_view, Ast, AstNode};
use crate::errors::{ErrorView, InterpretErrors};
use crate::rules::{fits_type, has_type, keeps_kind, same_kind};
use crate::table::{distinct, entries_map, has_key, lemma_position, position, Table};
use crate::value::{lemma_values_view, values_view, RuntimeValue, Value};
use vstd::prelude::*;

verus! {

/// A function: the names of its parameters and its body.
pub struct FunctionDef {
    pub params: Vec<String>,
    pub body: Vec<AstNode>,
}

/// A function as contracts see it.
pub ghost struct FunctionView {
    pub params: Seq<Seq<char>>,
    pub body: Seq<Ast>,
}

/// A list of names as contracts see it.
pub open spec fn names_view(v: Seq<String>) -> Seq<Seq<char>> {
    v.map_values(|s: String| s@)
}

impl View for FunctionDef {
    type V = FunctionView;

    open spec fn view(&self) -> FunctionView {
        FunctionView { params: names_view(self.params@), body: nodes_view(self.body@) }
    }
}

/// A copy of a list of names.
pub fn clone_names(v: &Vec<String>) -> (r: Vec<String>)
    ensures
        names_view(r@) == names_view(v@),
{
    let mut out: Vec<String> = Vec::new();
    let mut i: usize = 0;
    while i < v.len()
        invariant
            i <= v.len(),
            out.len() == i,
            forall|k: int| 0 <= k < i ==> out[k]@ == v[k]@,
        decreases v.len() - i,
    {
        out.push(v[i].clone());
        i += 1;
    }
    assert(names_view(out@) =~= names_view(v@));
    out
}

impl Clone for FunctionDef {
    fn clone(&self) -> (r: Self)
        ensures
            r@ == self@,
    {
        FunctionDef { params: clone_names(&self.params), body: clone_nodes(&self.body) }
    }
}

/// The bindings of a scope as contracts see them.
pub open spec fn values_map(m: Map<Seq<char>, RuntimeValue>) -> Map<Seq<char>, Value> {
    m.map_values(|v: RuntimeValue| v@)
}

/// The functions of a scope as contracts see them.
pub open spec fn functions_map(m: Map<Seq<char>, FunctionDef>) -> Map<Seq<char>, FunctionView> {
    m.map_values(|f: FunctionDef| f@)
}

/// A copy of a table of functions.
pub fn clone_functions(t: &Table<FunctionDef>) -> (r: Table<FunctionDef>)
    requires
        t.wf(),
    ensures
        r.wf(),
        functions_map(r@) == functions_map(t@),
{
    let n = t.len();
    let ghost slots = t.slots();
    let mut out: Table<FunctionDef> = Table::new();
    let mut i: usize = 0;
    while i < n
        invariant
            t.wf(),
            out.wf(),
            n == slots.len(),
            slots == t.slots(),
            distinct(slots),
            t@ == entries_map(slots),
            i <= n,
            forall|k: Seq<char>|
                out@.contains_key(k) <==> exists|j: int|
                    0 <= j < i && #[trigger] slots[j].key@ == k,
            forall|j: int|
                0 <= j < i ==> out@.contains_key(#[trigger] slots[j].key@) && out@[slots[j].key@]@
                    == slots[j].item@,
        decreases n - i,
    {
        let e = t.slot(i);
        let ghost before = out@;
        out.insert(e.key.clone(), e.item.clone());
        proof {
            assert forall|j: int| 0 <= j < i + 1 implies out@.contains_key(
                #[trigger] slots[j].key@,
            ) && out@[slots[j].key@]@ == slots[j].item@ by {
                if j < i {
                    assert(slots[j].key@ != slots[i as int].key@);
                }
            }
            assert forall|k: Seq<char>|
                out@.contains_key(k) <==> exists|j: int|
                    0 <= j < i + 1 && #[trigger] slots[j].key@ == k by {
                if out@.contains_key(k) {
                    if k == slots[i as int].key@ {
                    } else {
                        assert(before.contains_key(k));
                        let j = choose|j: int| 0 <= j < i && #[trigger] slots[j].key@ == k;
                        assert(0 <= j < i + 1 && slots[j].key@ == k);
                    }
                }
                if exists|j: int| 0 <= j < i + 1 && #[trigger] slots[j].key@ == k {
                    let j = choose|j: int| 0 <= j < i + 1 && #[trigger] slots[j].key@ == k;
                    if j < i {
                        assert(before.contains_key(k));
                    }
                }
            }
        }
        i += 1;
    }
    proof {
        assert forall|k: Seq<char>| out@.contains_key(k) <==> t@.contains_key(k) by {
            if out@.contains_key(k) {
                let j = choose|j: int| 0 <= j < n && #[trigger] slots[j].key@ == k;
                assert(has_key(slots, k));
            }
            if t@.contains_key(k) {
                let j = position(slots, k);
                assert(0 <= j < n && slots[j].key@ == k);
            }
        }
        assert forall|k: Seq<char>| out@.contains_key(k) implies #[trigger] functions_map(out@)[k]
            == functions_map(t@)[k] by {
            let j = position(slots, k);
            assert(0 <= j < n && slots[j].key@ == k);
            lemma_position(slots, j);
        }
        assert(functions_map(out@) =~= functions_map(t@));
    }
    out
}

/// A scope.
pub struct Scope {
    variables: Table<RuntimeValue>,
    functions: Table<FunctionDef>,
}

/// A scope as contracts see it: two finite maps.
pub ghost struct ScopeView {
    pub variables: Map<Seq<char>, Value>,
    pub functions: Map<Seq<char>, FunctionView>,
}

/// The value bound to a name.
pub open spec fn bound(s: ScopeView, name: Seq<char>) -> Option<Value> {
    if s.variables.contains_key(name) {
        Some(s.variables[name])
    } else {
        None
    }
}

/// The value of a name where it stands as an expression.
pub open spec fn read(s: ScopeView, name: Seq<char>) -> Result<Value, ErrorView> {
    match bound(s, name) {
        Some(v) => Ok(v),
        None => Err(ErrorView::UndefinedVariable { name }),
    }
}

/// Whether a name is bound as a constant.
pub open spec fn is_const(s: ScopeView, name: Seq<char>) -> bool {
    s.variables.contains_key(name) && s.variables[name] is ConstValue
}

/// The scope with `name` bound to `v`.
pub open spec fn put(s: ScopeView, name: Seq<char>, v: Value) -> ScopeView {
    ScopeView { variables: s.variables.insert(name, v), functions: s.functions }
}

/// The scope without a binding of `name`.
pub open spec fn forget(s: ScopeView, name: Seq<char>) -> ScopeView {
    ScopeView { variables: s.variables.remove(name), functions: s.functions }
}

/// The scope with the function `name` declared.
pub open spec fn declare(s: ScopeView, name: Seq<char>, f: FunctionView) -> ScopeView {
    ScopeView { variables: s.variables, functions: s.functions.insert(name, f) }
}

/// The function that a name calls.
pub open spec fn callee(s: ScopeView, name: Seq<char>) -> Option<FunctionView> {
    if s.functions.contains_key(name) {
        Some(s.functions[name])
    } else {
        None
    }
}

/// Binding `name` to `v` where the name may hold anything but a constant: a
/// constant is never overwritten.
pub open spec fn store(s: ScopeView, name: Seq<char>, v: Value) -> Result<ScopeView, ErrorView> {
    if is_const(s, name) {
        Err(ErrorView::ConstViolation { name })
    } else {
        Ok(put(s, name, v))
    }
}

/// An assignment to a name. A constant is never assigned to. A binding that
/// holds a value of some kind takes only values of that kind; one that
/// holds nothing takes any. A name that is not bound becomes bound.
pub open spec fn assign(s: ScopeView, name: Seq<char>, v: Value) -> Result<ScopeView, ErrorView> {
    match bound(s, name) {
        Some(existing) => if existing is ConstValue {
            Err(ErrorView::ConstViolation { name })
        } else if !keeps_kind(existing, v) {
            Err(ErrorView::AssignMismatch { name })
        } else {
            Ok(put(s, name, v))
        },
        None => Ok(put(s, name, v)),
    }
}

/// A declaration. The name must not be bound yet, and the value must be of
/// the declared type. A constant is stored in its wrapper.
pub open spec fn introduce(
    s: ScopeView,
    name: Seq<char>,
    constant: bool,
    declared: Option<crate::ast::Type>,
    v: Value,
) -> Result<ScopeView, ErrorView> {
    if s.variables.contains_key(name) {
        Err(ErrorView::Redeclaration { name })
    } else if declared is Some && !fits_type(v, declared->0) {
        Err(ErrorView::DeclaredTypeMismatch { name })
    } else if constant {
        Ok(put(s, name, Value::ConstValue(Box::new(v))))
    } else {
        Ok(put(s, name, v))
    }
}

/// The bindings of the first `n` parameters to the first `n` arguments. A
/// name that occurs twice keeps the later argument.
pub open spec fn bind_all(params: Seq<Seq<char>>, args: Seq<Value>, n: int) -> Map<
    Seq<char>,
    Value,
>
    decreases n,
{
    if n <= 0 || n > params.len() || n > args.len() {
        Map::empty()
    } else {
        bind_all(params, args, n - 1).insert(params[n - 1], args[n - 1])
    }
}

/// What a step on a scope gives, as contracts see it.
pub open spec fn scope_view(r: Result<(), InterpretErrors>, after: ScopeView) -> Result<
    ScopeView,
    ErrorView,
> {
    match r {
        Ok(_) => Ok(after),
        Err(e) => Err(e@),
    }
}

impl View for Scope {
    type V = ScopeView;

    closed spec fn view(&self) -> ScopeView {
        ScopeView {
            variables: values_map(self.variables@),
            functions: functions_map(self.functions@),
        }
    }
}

impl Scope {
    /// Whether both tables are well formed. Every scope that this module
    /// hands out is, and its methods keep it so.
    pub closed spec fn wf(&self) -> bool {
        self.variables.wf() && self.functions.wf()
    }

    /// A scope without bindings and without functions.
    pub fn new() -> (r: Self)
        ensures
            r.wf(),
            r@.variables == Map::<Seq<char>, Value>::empty(),
            r@.functions == Map::<Seq<char>, FunctionView>::empty(),
    {
        let r = Scope { variables: Table::new(), functions: Table::new() };
        proof {
            assert(r@.variables =~= Map::<Seq<char>, Value>::empty());
            assert(r@.functions =~= Map::<Seq<char>, FunctionView>::empty());
        }
        r
    }

    /// The value bound to `name`, if one is.
    pub fn lookup(&self, name: &str) -> (r: Option<RuntimeValue>)
        requires
            self.wf(),
        ensures
            match r {
                Some(v) => bound(self@, name@) == Some(v@),
                None => bound(self@, name@) is None,
            },
    {
        match self.variables.get(name) {
            Some(v) => Some(v.clone()),
            None => None,
        }
    }

    /// Whether `name` is bound.
    pub fn has(&self, name: &str) -> (r: bool)
        requires
            self.wf(),
        ensures
            r == self@.variables.contains_key(name@),
    {
        self.variables.contains(name)
    }

    /// Whether `name` is bound as a constant.
    pub fn holds_const(&self, name: &str) -> (r: bool)
        requires
            self.wf(),
        ensures
            r == is_const(self@, name@),
    {
        match self.variables.get(name) {
            Some(v) => match v {
                RuntimeValue::ConstValue(_) => true,
                _ => false,
            },
            None => false,
        }
    }

    /// Binds `name` to `v`, whatever it held.
    pub fn bind(&mut self, name: String, v: RuntimeValue)
        requires
            old(self).wf(),
        ensures
            final(self).wf(),
            final(self)@ == put(old(self)@, name@, v@),
    {
        let ghost before = self.variables@;
        self.variables.insert(name, v);
        proof {
            assert(values_map(self.variables@) =~= values_map(before).insert(name@, v@));
        }
    }

    /// Takes out the binding of `name`, if there is one.
    pub fn unbind(&mut self, name: &str)
        requires
            old(self).wf(),
        ensures
            final(self).wf(),
            final(self)@ == forget(old(self)@, name@),
    {
        let ghost before = self.variables@;
        self.variables.remove(name);
        proof {
            assert(values_map(self.variables@) =~= values_map(before).remove(name@));
        }
    }

    /// Declares the function `name`, in place of an earlier one of that
    /// name.
    pub fn define(&mut self, name: String, f: FunctionDef)
        requires
            old(self).wf(),
        ensures
            final(self).wf(),
            final(self)@ == declare(old(self)@, name@, f@),
    {
        let ghost before = self.functions@;
        self.functions.insert(name, f);
        proof {
            assert(functions_map(self.functions@) =~= functions_map(before).insert(name@, f@));
        }
    }

    /// The function that `name` calls, if one was declared.
    pub fn function(&self, name: &str) -> (r: Option<FunctionDef>)
        requires
            self.wf(),
        ensures
            match r {
                Some(f) => callee(self@, name@) == Some(f@),
                None => callee(self@, name@) is None,
            },
    {
        match self.functions.get(name) {
            Some(f) => Some(f.clone()),
            None => None,
        }
    }

    /// Binds `name` to `v` unless it holds a constant.
    pub fn store(&mut self, name: String, v: RuntimeValue) -> (r: Result<(), InterpretErrors>)
        requires
            old(self).wf(),
        ensures
            final(self).wf(),
            store(old(self)@, name@, v@) == scope_view(r, final(self)@),
            r is Err ==> final(self)@ == old(self)@,
    {
        if self.holds_const(name.as_str()) {
            Err(InterpretErrors::const_violation(name))
        } else {
            self.bind(name, v);
            Ok(())
        }
    }

    /// Assigns `v` to `name`.
    pub fn assign(&mut self, name: String, v: RuntimeValue) -> (r: Result<(), InterpretErrors>)
        requires
            old(self).wf(),
        ensures
            final(self).wf(),
            assign(old(self)@, name@, v@) == scope_view(r, final(self)@),
            r is Err ==> final(self)@ == old(self)@,
            is_const(old(self)@, name@) ==> r is Err,
            bound(old(self)@, name@) is Some && bound(old(self)@, name@)->0 is Number && !(v@
                is Number) ==> r is Err,
    {
        match self.variables.get(name.as_str()) {
            Some(existing) => {
                let constant = match existing {
                    RuntimeValue::ConstValue(_) => true,
                    _ => false,
                };
                if constant {
                    return Err(InterpretErrors::const_violation(name));
                }
                if !same_kind(existing, &v) {
                    return Err(InterpretErrors::assign_mismatch(name));
                }
            },
            None => {},
        }
        self.bind(name, v);
        Ok(())
    }

    /// Declares `name` with the value `v`.
    pub fn introduce(
        &mut self,
        name: String,
        constant: bool,
        declared: Option<crate::ast::Type>,
        v: RuntimeValue,
    ) -> (r: Result<(), InterpretErrors>)
        requires
            old(self).wf(),
        ensures
            final(self).wf(),
            introduce(old(self)@, name@, constant, declared, v@) == scope_view(r, final(self)@),
            r is Err ==> final(self)@ == old(self)@,
            r is Ok && constant ==> is_const(final(self)@, name@),
    {
        if self.has(name.as_str()) {
            return Err(InterpretErrors::redeclaration(name));
        }
        match declared {
            Some(t) => {
                if !has_type(&v, t) {
                    return Err(InterpretErrors::declared_type_mismatch(name));
                }
            },
            None => {},
        }
        if constant {
            self.bind(name, RuntimeValue::const_value(v));
        } else {
            self.bind(name, v);
        }
        Ok(())
    }

    /// The scope of a call: the parameters bound to the arguments, and a
    /// copy of the functions of `self`.
    pub fn for_call(&self, params: &Vec<String>, args: Vec<RuntimeValue>) -> (r: Scope)
        requires
            self.wf(),
            params.len() == args.len(),
        ensures
            r.wf(),
            r@.functions == self@.functions,
            r@.variables == bind_all(
                names_view(params@),
                values_view(args@),
                params.len() as int,
            ),
    {
        let mut args = args;
        let ghost all = values_view(args@);
        proof {
            lemma_values_view(args@);
        }
        let mut out = Scope { variables: Table::new(), functions: clone_functions(&self.functions) };
        proof {
            assert(out@.variables =~= Map::<Seq<char>, Value>::empty());
        }
        let n = params.len();
        let mut i: usize = 0;
        while i < n
            invariant
                out.wf(),
                n == params.len(),
                n == all.len(),
                args.len() == n,
                i <= n,
                out@.functions == self@.functions,
                out@.variables == bind_all(names_view(params@), all, i as int),
                forall|k: int| i <= k < n ==> #[trigger] args[k]@ == all[k],
            decreases n - i,
        {
            let v = args[i].clone();
            out.bind(params[i].clone(), v);
            i += 1;
        }
        out
    }
}

/// A constant is never assigned to: an assignment to a name that is bound
/// as a constant fails, and so does every other rule that would overwrite
/// the binding.
pub proof fn lemma_const_is_kept(s: ScopeView, name: Seq<char>, v: Value)
    requires
        is_const(s, name),
    ensures
        assign(s, name, v) is Err,
        store(s, name, v) is Err,
        introduce(s, name, false, None, v) is Err,
        introduce(s, name, true, None, v) is Err,
{
}

/// A binding that holds an integer takes only integers: the assignment of
/// any other value fails.
pub proof fn lemma_integer_stays_integer(s: ScopeView, name: Seq<char>, v: Value)
    requires
        bound(s, name) is Some,
        bound(s, name)->0 is Number,
        !(v is Number),
    ensures
        assign(s, name, v) is Err,
{
}

} // verus!
