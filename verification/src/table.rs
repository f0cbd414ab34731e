//! Instrumentation of the reference and table instructions: each targeted
//! instruction of the program gets a call to its analysis trap woven around it.
use vstd::prelude::*;

use crate::body::{
    body_of, concat, lemma_concat_assoc, lemma_concat_end, Body, Instr, Location, Origin, RefType,
    TypedInstr, ValType,
};

verus! {

/// A table-related instruction kind to instrument, with the indices of the
/// imported analysis functions that serve it.
#[derive(Debug, Clone, Copy, PartialEq, Eq, Structural)]
pub enum Target {
    RefFunc(u32),
    RefNull(u32),
    RefIsNull(u32),
    TableGet(u32),
    TableSet(u32),
    TableSize(u32),
    TableCopy { trap_idx: u32, get_src_idx: u32, get_dst_idx: u32, get_size_idx: u32 },
    TableGrow(u32),
    TableFill(u32),
    TableInit {
        trap_idx: u32,
        get_elem_source_idx: u32,
        get_table_destination_idx: u32,
        get_size_idx: u32,
    },
    ElemDrop(u32),
}

/// How a declared global is initialised.
#[derive(Debug, Clone, Copy, PartialEq, Eq, Structural)]
pub enum GlobalInit {
    RefNull(RefType),
    I32Const(i32),
}

/// A global declared in the module.
#[derive(Debug, Clone, Copy, PartialEq, Eq, Structural)]
pub struct GlobalDecl {
    pub ty: ValType,
    pub mutable: bool,
    pub init: GlobalInit,
}

/// The globals of the module that is being instrumented; a global's index is
/// its position.
#[derive(Debug)]
pub struct Globals {
    pub declared: Vec<GlobalDecl>,
}

impl View for Globals {
    type V = Seq<GlobalDecl>;

    open spec fn view(&self) -> Seq<GlobalDecl> {
        self.declared@
    }
}

/// The mutable `funcref` global, initially null, in which a reference is parked.
pub open spec fn ref_store() -> GlobalDecl {
    GlobalDecl {
        ty: ValType::Ref(RefType::FuncRef),
        mutable: true,
        init: GlobalInit::RefNull(RefType::FuncRef),
    }
}

/// The mutable `i32` global, initially 0, in which an operand is parked.
pub open spec fn i32_store() -> GlobalDecl {
    GlobalDecl { ty: ValType::I32, mutable: true, init: GlobalInit::I32Const(0) }
}

/// The two globals that each transformed body declares, in order.
pub open spec fn store_pair() -> Seq<GlobalDecl> {
    seq![ref_store(), i32_store()]
}

impl Globals {
    /// Declares a global and returns its index.
    pub fn add_global(&mut self, decl: GlobalDecl) -> (idx: u32)
        requires
            old(self)@.len() < u32::MAX,
        ensures
            idx == old(self)@.len(),
            final(self)@ == old(self)@.push(decl),
    {
        let idx = self.declared.len() as u32;
        self.declared.push(decl);
        idx
    }
}

/// An instruction added by instrumentation at the location of `ti`.
pub open spec fn added(ti: TypedInstr, i: Instr) -> TypedInstr {
    TypedInstr { instr: i, origin: Origin::Instrumentation, location: ti.location }
}

/// An added `i32.const` that holds an index.
pub open spec fn index_const(ti: TypedInstr, x: u32) -> TypedInstr {
    added(ti, Instr::I32Const(x as i32))
}

/// An added call.
pub open spec fn call(ti: TypedInstr, f: u32) -> TypedInstr {
    added(ti, Instr::Call(f))
}

/// The added `i64.const` that hands a trap the index of the function of `ti`.
pub open spec fn function_const(ti: TypedInstr) -> TypedInstr {
    added(ti, Instr::I64Const(ti.location.function as i64))
}

/// The added `i64.const` that hands a trap the index of `ti` in its function.
pub open spec fn instruction_const(ti: TypedInstr) -> TypedInstr {
    added(ti, Instr::I64Const(ti.location.instruction as i64))
}

/// The instruction `ti` put back in place once instrumentation served it.
pub open spec fn placed(ti: TypedInstr) -> TypedInstr {
    TypedInstr { instr: ti.instr, origin: Origin::Placed, location: ti.location }
}

/// What an instruction of the program becomes when it is of the target's
/// kind: the instructions around it that hand its operands, immediates and
/// location to the analysis, and the instruction itself put back in its place;
/// `None` when it is not of the target's kind. A trap call is the function's
/// index, the instruction's index and the call. `rg` and `ig` are the
/// reference and `i32` stores.
pub open spec fn expansion(t: Target, ti: TypedInstr, rg: u32, ig: u32) -> Option<
    Seq<TypedInstr>,
> {
    match (t, ti.instr) {
        (Target::RefFunc(trap), Instr::RefFunc(f)) => Some(
            seq![
                index_const(ti, f),
                function_const(ti),
                instruction_const(ti),
                call(ti, trap),
                placed(ti),
            ],
        ),
        (Target::RefNull(trap), Instr::RefNull(_)) => Some(
            seq![function_const(ti), instruction_const(ti), call(ti, trap), placed(ti)],
        ),
        (Target::RefIsNull(trap), Instr::RefIsNull) => Some(
            seq![placed(ti), function_const(ti), instruction_const(ti), call(ti, trap)],
        ),
        (Target::TableGet(trap), Instr::TableGet(x)) => Some(
            seq![
                index_const(ti, x),
                function_const(ti),
                instruction_const(ti),
                call(ti, trap),
                placed(ti),
            ],
        ),
        (Target::TableSet(trap), Instr::TableSet(x)) => Some(
            seq![
                added(ti, Instr::GlobalSet(rg)),
                index_const(ti, x),
                function_const(ti),
                instruction_const(ti),
                call(ti, trap),
                added(ti, Instr::GlobalGet(rg)),
                placed(ti),
            ],
        ),
        (Target::TableSize(trap), Instr::TableSize(x)) => Some(
            seq![
                placed(ti),
                index_const(ti, x),
                function_const(ti),
                instruction_const(ti),
                call(ti, trap),
            ],
        ),
        (Target::TableGrow(trap), Instr::TableGrow(x)) => Some(
            seq![
                index_const(ti, x),
                function_const(ti),
                instruction_const(ti),
                call(ti, trap),
                placed(ti),
            ],
        ),
        (Target::TableFill(trap), Instr::TableFill(x)) => Some(
            seq![
                added(ti, Instr::GlobalSet(ig)),
                added(ti, Instr::GlobalSet(rg)),
                added(ti, Instr::GlobalGet(ig)),
                index_const(ti, x),
                function_const(ti),
                instruction_const(ti),
                call(ti, trap),
                added(ti, Instr::GlobalGet(rg)),
                added(ti, Instr::GlobalGet(ig)),
                placed(ti),
            ],
        ),
        (
            Target::TableCopy { trap_idx, get_src_idx, get_dst_idx, get_size_idx },
            Instr::TableCopy(dst, src),
        ) => Some(
            seq![
                index_const(ti, dst),
                index_const(ti, src),
                function_const(ti),
                instruction_const(ti),
                call(ti, trap_idx),
                call(ti, get_dst_idx),
                call(ti, get_src_idx),
                call(ti, get_size_idx),
                placed(ti),
            ],
        ),
        (
            Target::TableInit {
                trap_idx,
                get_elem_source_idx,
                get_table_destination_idx,
                get_size_idx,
            },
            Instr::TableInit(table, elem),
        ) => Some(
            seq![
                index_const(ti, table),
                index_const(ti, elem),
                function_const(ti),
                instruction_const(ti),
                call(ti, trap_idx),
                call(ti, get_table_destination_idx),
                call(ti, get_elem_source_idx),
                call(ti, get_size_idx),
                placed(ti),
            ],
        ),
        (Target::ElemDrop(trap), Instr::ElemDrop(e)) => Some(
            seq![
                index_const(ti, e),
                function_const(ti),
                instruction_const(ti),
                call(ti, trap),
                placed(ti),
            ],
        ),
        _ => None,
    }
}

/// Whether an instruction is of the target's kind.
pub open spec fn is_target_kind(t: Target, i: Instr) -> bool {
    match (t, i) {
        (Target::RefFunc(_), Instr::RefFunc(_)) => true,
        (Target::RefNull(_), Instr::RefNull(_)) => true,
        (Target::RefIsNull(_), Instr::RefIsNull) => true,
        (Target::TableGet(_), Instr::TableGet(_)) => true,
        (Target::TableSet(_), Instr::TableSet(_)) => true,
        (Target::TableSize(_), Instr::TableSize(_)) => true,
        (Target::TableGrow(_), Instr::TableGrow(_)) => true,
        (Target::TableFill(_), Instr::TableFill(_)) => true,
        (Target::TableCopy { .. }, Instr::TableCopy(_, _)) => true,
        (Target::TableInit { .. }, Instr::TableInit(_, _)) => true,
        (Target::ElemDrop(_), Instr::ElemDrop(_)) => true,
        _ => false,
    }
}

/// The immediates that instrumentation passes on as `i32` constants fit in an
/// `i32`.
pub open spec fn immediates_fit(t: Target, i: Instr) -> bool {
    match (t, i) {
        (Target::RefFunc(_), Instr::RefFunc(f)) => f <= i32::MAX,
        (Target::TableGet(_), Instr::TableGet(x)) => x <= i32::MAX,
        (Target::TableSet(_), Instr::TableSet(x)) => x <= i32::MAX,
        (Target::TableSize(_), Instr::TableSize(x)) => x <= i32::MAX,
        (Target::TableGrow(_), Instr::TableGrow(x)) => x <= i32::MAX,
        (Target::TableFill(_), Instr::TableFill(x)) => x <= i32::MAX,
        (Target::TableCopy { .. }, Instr::TableCopy(d, s)) => d <= i32::MAX && s <= i32::MAX,
        (Target::TableInit { .. }, Instr::TableInit(a, b)) => a <= i32::MAX && b <= i32::MAX,
        (Target::ElemDrop(_), Instr::ElemDrop(e)) => e <= i32::MAX,
        _ => true,
    }
}

/// Every instruction of the program of the target's kind, at any depth, has
/// immediates that fit in an `i32`.
pub open spec fn list_fits(b: Body, t: Target) -> bool
    decreases b,
{
    match b {
        Body::End => true,
        Body::Then(ti, rest) => instr_fits(*ti, t) && list_fits(*rest, t),
    }
}

/// `list_fits` for one instruction and the bodies nested in it.
pub open spec fn instr_fits(ti: TypedInstr, t: Target) -> bool
    decreases ti,
{
    &&& (ti.origin == Origin::Program ==> immediates_fit(t, ti.instr))
    &&& match ti.instr {
        Instr::Block(_, inner) => list_fits(*inner, t),
        Instr::Loop(_, inner) => list_fits(*inner, t),
        Instr::If(_, then, None) => list_fits(*then, t),
        Instr::If(_, then, Some(els)) => list_fits(*then, t) && list_fits(*els, t),
        _ => true,
    }
}

/// The number of bodies nested in the instructions of `b`, at any depth.
pub open spec fn nested_bodies(b: Body) -> nat
    decreases b,
{
    match b {
        Body::End => 0,
        Body::Then(ti, rest) => instr_bodies(*ti) + nested_bodies(*rest),
    }
}

/// The number of bodies in an instruction, at any depth.
pub open spec fn instr_bodies(ti: TypedInstr) -> nat
    decreases ti,
{
    match ti.instr {
        Instr::Block(_, inner) => 1 + nested_bodies(*inner),
        Instr::Loop(_, inner) => 1 + nested_bodies(*inner),
        Instr::If(_, then, None) => 1 + nested_bodies(*then),
        Instr::If(_, then, Some(els)) => 2 + nested_bodies(*then) + nested_bodies(*els),
        _ => 0,
    }
}

/// The body with one instruction.
pub open spec fn single(ti: TypedInstr) -> Body {
    Body::Then(Box::new(ti), Box::new(Body::End))
}

/// The transformation of a body whose stores are the globals `rg` and `ig`,
/// when the module already declares `g` globals: the new body, and the globals
/// that the bodies nested in it declare, in order.
pub open spec fn transform_list(b: Body, t: Target, rg: u32, ig: u32, g: nat) -> (Body, Seq<
    GlobalDecl,
>)
    decreases b,
{
    match b {
        Body::End => (Body::End, Seq::empty()),
        Body::Then(ti, rest) => {
            let x = transform_instr(*ti, t, rg, ig, g);
            let y = transform_list(*rest, t, rg, ig, g + x.1.len());
            (concat(x.0, y.0), x.1 + y.1)
        },
    }
}

/// `transform_list` for one instruction: an instruction of the program of the
/// target's kind becomes its expansion; a structured instruction keeps its
/// place and has each nested body transformed, each declaring its own two
/// stores first; any other instruction stays as it is.
pub open spec fn transform_instr(ti: TypedInstr, t: Target, rg: u32, ig: u32, g: nat) -> (Body, Seq<
    GlobalDecl,
>)
    decreases ti,
{
    if ti.origin == Origin::Program && expansion(t, ti, rg, ig) is Some {
        (body_of(expansion(t, ti, rg, ig).unwrap()), Seq::empty())
    } else {
        match ti.instr {
            Instr::Block(ty, inner) => {
                let r = transform_list(*inner, t, g as u32, (g + 1) as u32, g + 2);
                (
                    single(TypedInstr { instr: Instr::Block(ty, Box::new(r.0)), origin: ti.origin, location: ti.location }),
                    store_pair() + r.1,
                )
            },
            Instr::Loop(ty, inner) => {
                let r = transform_list(*inner, t, g as u32, (g + 1) as u32, g + 2);
                (
                    single(TypedInstr { instr: Instr::Loop(ty, Box::new(r.0)), origin: ti.origin, location: ti.location }),
                    store_pair() + r.1,
                )
            },
            Instr::If(ty, then, None) => {
                let r = transform_list(*then, t, g as u32, (g + 1) as u32, g + 2);
                (
                    single(
                        TypedInstr { instr: Instr::If(ty, Box::new(r.0), None), origin: ti.origin, location: ti.location },
                    ),
                    store_pair() + r.1,
                )
            },
            Instr::If(ty, then, Some(els)) => {
                let r1 = transform_list(*then, t, g as u32, (g + 1) as u32, g + 2);
                let g2 = g + 2 + r1.1.len();
                let r2 = transform_list(*els, t, g2 as u32, (g2 + 1) as u32, g2 + 2);
                (
                    single(
                        TypedInstr {
                            instr: Instr::If(ty, Box::new(r1.0), Some(Box::new(r2.0))),
                            origin: ti.origin,
                            location: ti.location,
                        },
                    ),
                    store_pair() + r1.1 + store_pair() + r2.1,
                )
            },
            _ => (single(ti), Seq::empty()),
        }
    }
}

/// The transformation of a whole body when the module declares `g` globals:
/// the body declares its two stores first, at `g` and `g + 1`.
pub open spec fn transform_body(b: Body, t: Target, g: nat) -> (Body, Seq<GlobalDecl>) {
    let r = transform_list(b, t, g as u32, (g + 1) as u32, g + 2);
    (r.0, store_pair() + r.1)
}


/// Declares the two stores of a body and returns their indices.
fn declare_stores(globals: &mut Globals) -> (res: (u32, u32))
    requires
        old(globals)@.len() + 2 <= u32::MAX,
    ensures
        res.0 == old(globals)@.len(),
        res.1 == old(globals)@.len() + 1,
        final(globals)@ == old(globals)@ + store_pair(),
{
    let rg = globals.add_global(
        GlobalDecl {
            ty: ValType::Ref(RefType::FuncRef),
            mutable: true,
            init: GlobalInit::RefNull(RefType::FuncRef),
        },
    );
    let ig = globals.add_global(
        GlobalDecl { ty: ValType::I32, mutable: true, init: GlobalInit::I32Const(0) },
    );
    proof {
        assert(globals@ =~= old(globals)@ + store_pair());
    }
    (rg, ig)
}

/// An instruction added by instrumentation at `location`.
fn added_exec(instr: Instr, location: Location) -> (res: TypedInstr)
    ensures
        res == (TypedInstr { instr, origin: Origin::Instrumentation, location }),
{
    TypedInstr { instr, origin: Origin::Instrumentation, location }
}

/// An added `i32.const` that holds an index.
fn index_const_exec(x: u32, location: Location) -> (res: TypedInstr)
    requires
        x <= i32::MAX,
    ensures
        res == (TypedInstr { instr: Instr::I32Const(x as i32), origin: Origin::Instrumentation, location }),
{
    added_exec(Instr::I32Const(x as i32), location)
}

/// An added call.
fn call_exec(f: u32, location: Location) -> (res: TypedInstr)
    ensures
        res == (TypedInstr { instr: Instr::Call(f), origin: Origin::Instrumentation, location }),
{
    added_exec(Instr::Call(f), location)
}

/// The added `i64.const` that hands a trap the index of the function.
fn function_const_exec(location: Location) -> (res: TypedInstr)
    ensures
        res == (TypedInstr {
            instr: Instr::I64Const(location.function as i64),
            origin: Origin::Instrumentation,
            location,
        }),
{
    added_exec(Instr::I64Const(location.function as i64), location)
}

/// The added `i64.const` that hands a trap the index of the instruction.
fn instruction_const_exec(location: Location) -> (res: TypedInstr)
    ensures
        res == (TypedInstr {
            instr: Instr::I64Const(location.instruction as i64),
            origin: Origin::Instrumentation,
            location,
        }),
{
    added_exec(Instr::I64Const(location.instruction as i64), location)
}

/// An instruction of the program put back in place at `location`.
fn placed_exec(instr: Instr, location: Location) -> (res: TypedInstr)
    ensures
        res == (TypedInstr { instr, origin: Origin::Placed, location }),
{
    TypedInstr { instr, origin: Origin::Placed, location }
}

/// The expansion of an instruction of the program of the target's kind, or
/// the instruction back when it is of another kind.
fn expand(t: Target, instr: Instr, location: Location, rg: u32, ig: u32) -> (res: Result<Body, Instr>)
    requires
        immediates_fit(t, instr),
    ensures
        ({
            let ti = TypedInstr { instr, origin: Origin::Program, location };
            match res {
                Ok(b) => expansion(t, ti, rg, ig) is Some && b == body_of(
                    expansion(t, ti, rg, ig).unwrap(),
                ),
                Err(i) => expansion(t, ti, rg, ig) is None && i == instr,
            }
        }),
{
    let ghost ti = TypedInstr { instr, origin: Origin::Program, location };
    let v = match (t, instr) {
        (Target::RefFunc(trap), Instr::RefFunc(f)) => vec![
            index_const_exec(f, location),
            function_const_exec(location),
            instruction_const_exec(location),
            call_exec(trap, location),
            placed_exec(Instr::RefFunc(f), location),
        ],
        (Target::RefNull(trap), Instr::RefNull(r)) => vec![
            function_const_exec(location),
            instruction_const_exec(location),
            call_exec(trap, location),
            placed_exec(Instr::RefNull(r), location),
        ],
        (Target::RefIsNull(trap), Instr::RefIsNull) => vec![
            placed_exec(Instr::RefIsNull, location),
            function_const_exec(location),
            instruction_const_exec(location),
            call_exec(trap, location),
        ],
        (Target::TableGet(trap), Instr::TableGet(x)) => vec![
            index_const_exec(x, location),
            function_const_exec(location),
            instruction_const_exec(location),
            call_exec(trap, location),
            placed_exec(Instr::TableGet(x), location),
        ],
        (Target::TableSet(trap), Instr::TableSet(x)) => vec![
            added_exec(Instr::GlobalSet(rg), location),
            index_const_exec(x, location),
            function_const_exec(location),
            instruction_const_exec(location),
            call_exec(trap, location),
            added_exec(Instr::GlobalGet(rg), location),
            placed_exec(Instr::TableSet(x), location),
        ],
        (Target::TableSize(trap), Instr::TableSize(x)) => vec![
            placed_exec(Instr::TableSize(x), location),
            index_const_exec(x, location),
            function_const_exec(location),
            instruction_const_exec(location),
            call_exec(trap, location),
        ],
        (Target::TableGrow(trap), Instr::TableGrow(x)) => vec![
            index_const_exec(x, location),
            function_const_exec(location),
            instruction_const_exec(location),
            call_exec(trap, location),
            placed_exec(Instr::TableGrow(x), location),
        ],
        (Target::TableFill(trap), Instr::TableFill(x)) => vec![
            added_exec(Instr::GlobalSet(ig), location),
            added_exec(Instr::GlobalSet(rg), location),
            added_exec(Instr::GlobalGet(ig), location),
            index_const_exec(x, location),
            function_const_exec(location),
            instruction_const_exec(location),
            call_exec(trap, location),
            added_exec(Instr::GlobalGet(rg), location),
            added_exec(Instr::GlobalGet(ig), location),
            placed_exec(Instr::TableFill(x), location),
        ],
        (
            Target::TableCopy { trap_idx, get_src_idx, get_dst_idx, get_size_idx },
            Instr::TableCopy(dst, src),
        ) => vec![
            index_const_exec(dst, location),
            index_const_exec(src, location),
            function_const_exec(location),
            instruction_const_exec(location),
            call_exec(trap_idx, location),
            call_exec(get_dst_idx, location),
            call_exec(get_src_idx, location),
            call_exec(get_size_idx, location),
            placed_exec(Instr::TableCopy(dst, src), location),
        ],
        (
            Target::TableInit {
                trap_idx,
                get_elem_source_idx,
                get_table_destination_idx,
                get_size_idx,
            },
            Instr::TableInit(table, elem),
        ) => vec![
            index_const_exec(table, location),
            index_const_exec(elem, location),
            function_const_exec(location),
            instruction_const_exec(location),
            call_exec(trap_idx, location),
            call_exec(get_table_destination_idx, location),
            call_exec(get_elem_source_idx, location),
            call_exec(get_size_idx, location),
            placed_exec(Instr::TableInit(table, elem), location),
        ],
        (Target::ElemDrop(trap), Instr::ElemDrop(e)) => vec![
            index_const_exec(e, location),
            function_const_exec(location),
            instruction_const_exec(location),
            call_exec(trap, location),
            placed_exec(Instr::ElemDrop(e), location),
        ],
        (_, other) => {
            return Err(other);
        },
    };
    proof {
        assert(v@ =~= expansion(t, ti, rg, ig).unwrap());
    }
    Ok(Body::from_instrs(v))
}

/// The body with one instruction.
fn single_exec(ti: TypedInstr) -> (res: Body)
    ensures
        res == single(ti),
{
    Body::Then(Box::new(ti), Box::new(Body::End))
}

/// Executes `transform_list`.
fn transform_list_exec(b: Body, t: Target, rg: u32, ig: u32, globals: &mut Globals) -> (res: Body)
    requires
        list_fits(b, t),
        old(globals)@.len() + 2 * nested_bodies(b) <= u32::MAX,
    ensures
        res == transform_list(b, t, rg, ig, old(globals)@.len()).0,
        final(globals)@ == old(globals)@ + transform_list(b, t, rg, ig, old(globals)@.len()).1,
        final(globals)@.len() == old(globals)@.len() + 2 * nested_bodies(b),
    decreases b,
{
    let ghost g0 = globals@;
    match b {
        Body::End => {
            proof {
                assert(g0 + Seq::<GlobalDecl>::empty() =~= g0);
            }
            Body::End
        },
        Body::Then(ti, rest) => {
            let ghost spec_x = transform_instr(*ti, t, rg, ig, g0.len());
            let x = transform_instr_exec(*ti, t, rg, ig, globals);
            let ghost g1 = globals@;
            let y = transform_list_exec(*rest, t, rg, ig, globals);
            proof {
                assert(g1.len() == g0.len() + spec_x.1.len());
                assert(globals@ =~= g0 + (spec_x.1 + transform_list(
                    *rest,
                    t,
                    rg,
                    ig,
                    g0.len() + spec_x.1.len(),
                ).1));
            }
            x.append(y)
        },
    }
}

/// Executes `transform_instr`.
fn transform_instr_exec(ti: TypedInstr, t: Target, rg: u32, ig: u32, globals: &mut Globals) -> (res:
    Body)
    requires
        instr_fits(ti, t),
        old(globals)@.len() + 2 * instr_bodies(ti) <= u32::MAX,
    ensures
        res == transform_instr(ti, t, rg, ig, old(globals)@.len()).0,
        final(globals)@ == old(globals)@ + transform_instr(ti, t, rg, ig, old(globals)@.len()).1,
        final(globals)@.len() == old(globals)@.len() + 2 * instr_bodies(ti),
    decreases ti,
{
    let ghost g0 = globals@;
    let ghost whole = ti;
    let TypedInstr { instr, origin, location } = ti;
    let instr = match origin {
        Origin::Program => match expand(t, instr, location, rg, ig) {
            Ok(expanded) => {
                proof {
                    assert(instr_bodies(whole) == 0);
                    assert(g0 + Seq::<GlobalDecl>::empty() =~= g0);
                }
                return expanded;
            },
            Err(i) => i,
        },
        _ => instr,
    };
    match instr {
        Instr::Block(ty, inner) => {
            let (rg2, ig2) = declare_stores(globals);
            let nb = transform_list_exec(*inner, t, rg2, ig2, globals);
            proof {
                assert(globals@ =~= g0 + transform_instr(whole, t, rg, ig, g0.len()).1);
            }
            single_exec(TypedInstr { instr: Instr::Block(ty, Box::new(nb)), origin, location })
        },
        Instr::Loop(ty, inner) => {
            let (rg2, ig2) = declare_stores(globals);
            let nb = transform_list_exec(*inner, t, rg2, ig2, globals);
            proof {
                assert(globals@ =~= g0 + transform_instr(whole, t, rg, ig, g0.len()).1);
            }
            single_exec(TypedInstr { instr: Instr::Loop(ty, Box::new(nb)), origin, location })
        },
        Instr::If(ty, then, None) => {
            let (rg2, ig2) = declare_stores(globals);
            let nb = transform_list_exec(*then, t, rg2, ig2, globals);
            proof {
                assert(globals@ =~= g0 + transform_instr(whole, t, rg, ig, g0.len()).1);
            }
            single_exec(TypedInstr { instr: Instr::If(ty, Box::new(nb), None), origin, location })
        },
        Instr::If(ty, then, Some(els)) => {
            let (rg2, ig2) = declare_stores(globals);
            let nb1 = transform_list_exec(*then, t, rg2, ig2, globals);
            let (rg3, ig3) = declare_stores(globals);
            let nb2 = transform_list_exec(*els, t, rg3, ig3, globals);
            proof {
                assert(globals@ =~= g0 + transform_instr(whole, t, rg, ig, g0.len()).1);
            }
            single_exec(
                TypedInstr { instr: Instr::If(ty, Box::new(nb1), Some(Box::new(nb2))), origin, location },
            )
        },
        other => {
            proof {
                assert(g0 + Seq::<GlobalDecl>::empty() =~= g0);
            }
            single_exec(TypedInstr { instr: other, origin, location })
        },
    }
}

/// A rewriting of function bodies that weaves in calls to analysis traps.
pub trait TransformationStrategy {
    /// Whether the strategy can rewrite `body` in a module that declares the
    /// globals `globals`.
    spec fn applies_to(&self, body: Body, globals: Seq<GlobalDecl>) -> bool;

    /// The rewritten body; the globals that the rewriting needs are declared
    /// in `globals`.
    fn transform(&self, body: Body, globals: &mut Globals) -> Body
        requires
            self.applies_to(body, old(globals)@),
    ;
}

impl TransformationStrategy for Target {
    /// Every instruction of this target's kind has immediates that fit in an
    /// `i32`, and the module has room for the globals that the body declares.
    open spec fn applies_to(&self, body: Body, globals: Seq<GlobalDecl>) -> bool {
        &&& list_fits(body, *self)
        &&& globals.len() + 2 + 2 * nested_bodies(body) <= u32::MAX
    }

    /// Instruments every instruction of the program of this target's kind in
    /// `body`, at any depth. The body, and each body nested in it, first
    /// declares two globals in which operands are parked.
    fn transform(&self, body: Body, globals: &mut Globals) -> (res: Body)
        ensures
            res == transform_body(body, *self, old(globals)@.len()).0,
            final(globals)@ == old(globals)@ + transform_body(body, *self, old(globals)@.len()).1,
            final(globals)@.len() == old(globals)@.len() + 2 + 2 * nested_bodies(body),
    {
        let ghost g0 = globals@;
        let (rg, ig) = declare_stores(globals);
        let res = transform_list_exec(body, *self, rg, ig, globals);
        proof {
            assert(globals@ =~= g0 + transform_body(body, *self, g0.len()).1);
        }
        res
    }
}


/// The program's part of a body: the body with every instruction added by
/// instrumentation removed, at any depth, and every instruction of the
/// program, served or not, taken as it was before instrumentation.
pub open spec fn strip_list(b: Body) -> Body
    decreases b,
{
    match b {
        Body::End => Body::End,
        Body::Then(ti, rest) => concat(strip_instr(*ti), strip_list(*rest)),
    }
}

/// `strip_list` for one instruction: nothing when it was added, else the
/// instruction of the program with the program's part of each nested body.
pub open spec fn strip_instr(ti: TypedInstr) -> Body
    decreases ti,
{
    if ti.origin == Origin::Instrumentation {
        Body::End
    } else {
        match ti.instr {
            Instr::Block(ty, inner) => single(
                TypedInstr {
                    instr: Instr::Block(ty, Box::new(strip_list(*inner))),
                    origin: Origin::Program,
                    location: ti.location,
                },
            ),
            Instr::Loop(ty, inner) => single(
                TypedInstr {
                    instr: Instr::Loop(ty, Box::new(strip_list(*inner))),
                    origin: Origin::Program,
                    location: ti.location,
                },
            ),
            Instr::If(ty, then, None) => single(
                TypedInstr {
                    instr: Instr::If(ty, Box::new(strip_list(*then)), None),
                    origin: Origin::Program,
                    location: ti.location,
                },
            ),
            Instr::If(ty, then, Some(els)) => single(
                TypedInstr {
                    instr: Instr::If(
                        ty,
                        Box::new(strip_list(*then)),
                        Some(Box::new(strip_list(*els))),
                    ),
                    origin: Origin::Program,
                    location: ti.location,
                },
            ),
            _ => single(TypedInstr { instr: ti.instr, origin: Origin::Program, location: ti.location }),
        }
    }
}

/// Whether the program's part of a body holds an instruction of the target's
/// kind, at any depth.
pub open spec fn list_has_kind(b: Body, t: Target) -> bool
    decreases b,
{
    match b {
        Body::End => false,
        Body::Then(ti, rest) => instr_has_kind(*ti, t) || list_has_kind(*rest, t),
    }
}

/// `list_has_kind` for one instruction and the bodies nested in it.
pub open spec fn instr_has_kind(ti: TypedInstr, t: Target) -> bool
    decreases ti,
{
    ||| (ti.origin == Origin::Program && is_target_kind(t, ti.instr))
    ||| match ti.instr {
        Instr::Block(_, inner) => list_has_kind(*inner, t),
        Instr::Loop(_, inner) => list_has_kind(*inner, t),
        Instr::If(_, then, None) => list_has_kind(*then, t),
        Instr::If(_, then, Some(els)) => list_has_kind(*then, t) || list_has_kind(*els, t),
        _ => false,
    }
}

proof fn lemma_strip_concat(a: Body, b: Body)
    ensures
        strip_list(concat(a, b)) == concat(strip_list(a), strip_list(b)),
    decreases a,
{
    match a {
        Body::End => {},
        Body::Then(ti, rest) => {
            lemma_strip_concat(*rest, b);
            lemma_concat_assoc(strip_instr(*ti), strip_list(*rest), strip_list(b));
        },
    }
}

proof fn lemma_strip_single(ti: TypedInstr)
    ensures
        strip_list(single(ti)) == strip_instr(ti),
{
    assert(strip_list(Body::End) == Body::End);
    lemma_concat_end(strip_instr(ti));
}

proof fn lemma_strip_added(s: Seq<TypedInstr>)
    requires
        forall|i: int| 0 <= i < s.len() ==> (#[trigger] s[i]).origin == Origin::Instrumentation,
    ensures
        strip_list(body_of(s)) == Body::End,
    decreases s.len(),
{
    if s.len() > 0 {
        assert(s[0].origin == Origin::Instrumentation);
        assert(strip_instr(s[0]) == Body::End);
        lemma_strip_added(s.drop_first());
        assert forall|i: int| 0 <= i < s.drop_first().len() implies (
        #[trigger] s.drop_first()[i]).origin == Origin::Instrumentation by {
            assert(s.drop_first()[i] == s[i + 1]);
        }
    }
}

proof fn lemma_strip_body_of(a: Seq<TypedInstr>, b: Seq<TypedInstr>)
    ensures
        strip_list(body_of(a + b)) == concat(strip_list(body_of(a)), strip_list(body_of(b))),
    decreases a.len(),
{
    if a.len() == 0 {
        assert(a + b =~= b);
    } else {
        assert((a + b).drop_first() =~= a.drop_first() + b);
        lemma_strip_body_of(a.drop_first(), b);
        lemma_concat_assoc(
            strip_instr(a[0]),
            strip_list(body_of(a.drop_first())),
            strip_list(body_of(b)),
        );
    }
}

proof fn lemma_strip_expansion(t: Target, ti: TypedInstr, rg: u32, ig: u32)
    requires
        ti.origin == Origin::Program,
        expansion(t, ti, rg, ig) is Some,
    ensures
        strip_list(body_of(expansion(t, ti, rg, ig).unwrap())) == single(ti),
{
    let e = expansion(t, ti, rg, ig).unwrap();
    let p = placed(ti);
    let k = choose|k: int| 0 <= k < e.len() && e[k] == p;
    assert(0 <= k < e.len() && e[k] == p) by {
        let w: int = match (t, ti.instr) {
            (Target::RefIsNull(_), Instr::RefIsNull) => 0,
            (Target::TableSize(_), Instr::TableSize(_)) => 0,
            _ => e.len() - 1,
        };
        assert(e[w] == p);
    }
    let pre = e.subrange(0, k);
    let post = e.subrange(k + 1, e.len() as int);
    assert forall|i: int| 0 <= i < pre.len() implies (#[trigger] pre[i]).origin
        == Origin::Instrumentation by {
        assert(pre[i] == e[i]);
    }
    assert forall|i: int| 0 <= i < post.len() implies (#[trigger] post[i]).origin
        == Origin::Instrumentation by {
        assert(post[i] == e[k + 1 + i]);
    }
    assert(e =~= pre + (seq![p] + post));
    lemma_strip_added(pre);
    lemma_strip_added(post);
    lemma_strip_body_of(pre, seq![p] + post);
    lemma_strip_body_of(seq![p], post);
    assert(body_of(seq![p]) == single(p)) by {
        assert(seq![p].drop_first() =~= Seq::<TypedInstr>::empty());
        assert(body_of(Seq::<TypedInstr>::empty()) == Body::End);
    }
    lemma_strip_single(p);
    assert(strip_instr(p) == single(ti));
    lemma_concat_end(strip_list(single(p)));
}

proof fn lemma_strip_transform_list(b: Body, t: Target, rg: u32, ig: u32, g: nat)
    ensures
        strip_list(transform_list(b, t, rg, ig, g).0) == strip_list(b),
    decreases b,
{
    match b {
        Body::End => {},
        Body::Then(ti, rest) => {
            let x = transform_instr(*ti, t, rg, ig, g);
            lemma_strip_transform_instr(*ti, t, rg, ig, g);
            lemma_strip_transform_list(*rest, t, rg, ig, g + x.1.len());
            lemma_strip_concat(x.0, transform_list(*rest, t, rg, ig, g + x.1.len()).0);
        },
    }
}

proof fn lemma_strip_transform_instr(ti: TypedInstr, t: Target, rg: u32, ig: u32, g: nat)
    ensures
        strip_list(transform_instr(ti, t, rg, ig, g).0) == strip_instr(ti),
    decreases ti,
{
    if ti.origin == Origin::Program && expansion(t, ti, rg, ig) is Some {
        lemma_strip_expansion(t, ti, rg, ig);
        assert(strip_instr(ti) == single(ti));
    } else {
        let r = transform_instr(ti, t, rg, ig, g);
        match ti.instr {
            Instr::Block(ty, inner) => {
                lemma_strip_transform_list(*inner, t, g as u32, (g + 1) as u32, g + 2);
            },
            Instr::Loop(ty, inner) => {
                lemma_strip_transform_list(*inner, t, g as u32, (g + 1) as u32, g + 2);
            },
            Instr::If(ty, then, None) => {
                lemma_strip_transform_list(*then, t, g as u32, (g + 1) as u32, g + 2);
            },
            Instr::If(ty, then, Some(els)) => {
                let r1 = transform_list(*then, t, g as u32, (g + 1) as u32, g + 2);
                let g2 = g + 2 + r1.1.len();
                lemma_strip_transform_list(*then, t, g as u32, (g + 1) as u32, g + 2);
                lemma_strip_transform_list(*els, t, g2 as u32, (g2 + 1) as u32, g2 + 2);
            },
            _ => {},
        }
        if let Body::Then(x, _) = r.0 {
            lemma_strip_single(*x);
        }
    }
}

/// Instrumentation only adds instructions: dropping what it added from a
/// transformed body gives back the program's part of the body it was given, with
/// every instruction in place and every nesting kept.
pub proof fn law_transform_keeps_program(t: Target, body: Body, g: nat)
    ensures
        strip_list(transform_body(body, t, g).0) == strip_list(body),
{
    lemma_strip_transform_list(body, t, g as u32, (g + 1) as u32, g + 2);
}

proof fn lemma_expansion_kind(t: Target, ti: TypedInstr, rg: u32, ig: u32)
    ensures
        expansion(t, ti, rg, ig) is Some <==> is_target_kind(t, ti.instr),
{
}

proof fn lemma_untouched_list(b: Body, t: Target, rg: u32, ig: u32, g: nat)
    requires
        !list_has_kind(b, t),
    ensures
        transform_list(b, t, rg, ig, g).0 == b,
    decreases b,
{
    match b {
        Body::End => {
            assert(transform_list(b, t, rg, ig, g).0 == Body::End);
        },
        Body::Then(ti, rest) => {
            let x = transform_instr(*ti, t, rg, ig, g);
            lemma_untouched_instr(*ti, t, rg, ig, g);
            lemma_untouched_list(*rest, t, rg, ig, g + x.1.len());
            assert(concat(Body::End, *rest) == *rest);
            assert(concat(single(*ti), *rest) == b);
        },
    }
}

proof fn lemma_untouched_instr(ti: TypedInstr, t: Target, rg: u32, ig: u32, g: nat)
    requires
        !instr_has_kind(ti, t),
    ensures
        transform_instr(ti, t, rg, ig, g).0 == single(ti),
    decreases ti,
{
    lemma_expansion_kind(t, ti, rg, ig);
    match ti.instr {
        Instr::Block(ty, inner) => {
            lemma_untouched_list(*inner, t, g as u32, (g + 1) as u32, g + 2);
        },
        Instr::Loop(ty, inner) => {
            lemma_untouched_list(*inner, t, g as u32, (g + 1) as u32, g + 2);
        },
        Instr::If(ty, then, None) => {
            lemma_untouched_list(*then, t, g as u32, (g + 1) as u32, g + 2);
        },
        Instr::If(ty, then, Some(els)) => {
            let r1 = transform_list(*then, t, g as u32, (g + 1) as u32, g + 2);
            let g2 = g + 2 + r1.1.len();
            lemma_untouched_list(*then, t, g as u32, (g + 1) as u32, g + 2);
            lemma_untouched_list(*els, t, g2 as u32, (g2 + 1) as u32, g2 + 2);
        },
        _ => {},
    }
}

/// A body whose program part holds no instruction of the target's kind, at
/// any depth, comes out of the transformation unchanged.
pub proof fn law_transform_without_kind_is_identity(t: Target, body: Body, g: nat)
    requires
        !list_has_kind(body, t),
    ensures
        transform_body(body, t, g).0 == body,
{
    lemma_untouched_list(body, t, g as u32, (g + 1) as u32, g + 2);
}

proof fn lemma_has_kind_concat(a: Body, b: Body, t: Target)
    ensures
        list_has_kind(concat(a, b), t) == (list_has_kind(a, t) || list_has_kind(b, t)),
    decreases a,
{
    match a {
        Body::End => {},
        Body::Then(ti, rest) => {
            lemma_has_kind_concat(*rest, b, t);
        },
    }
}

proof fn lemma_flat_unserved_none(x: TypedInstr, t: Target)
    requires
        x.origin != Origin::Program,
        instr_bodies(x) == 0,
    ensures
        !instr_has_kind(x, t),
{
    match x.instr {
        Instr::Block(_, inner) => {},
        Instr::Loop(_, inner) => {},
        Instr::If(_, then, _) => {},
        _ => {},
    }
}

proof fn lemma_single_has_kind(x: TypedInstr, t: Target)
    ensures
        list_has_kind(single(x), t) == instr_has_kind(x, t),
{
    assert(!list_has_kind(Body::End, t));
}

proof fn lemma_served_flat(s: Seq<TypedInstr>, t: Target)
    requires
        forall|i: int|
            0 <= i < s.len() ==> (#[trigger] s[i]).origin != Origin::Program && instr_bodies(s[i])
                == 0,
    ensures
        !list_has_kind(body_of(s), t),
    decreases s.len(),
{
    if s.len() > 0 {
        assert(s[0].origin != Origin::Program && instr_bodies(s[0]) == 0);
        lemma_flat_unserved_none(s[0], t);
        assert forall|i: int| 0 <= i < s.drop_first().len() implies (#[trigger] s.drop_first()[
            i]).origin != Origin::Program && instr_bodies(s.drop_first()[i]) == 0 by {
            assert(s.drop_first()[i] == s[i + 1]);
        }
        lemma_served_flat(s.drop_first(), t);
    }
}

proof fn lemma_served_list(b: Body, t: Target, rg: u32, ig: u32, g: nat)
    ensures
        !list_has_kind(transform_list(b, t, rg, ig, g).0, t),
    decreases b,
{
    match b {
        Body::End => {},
        Body::Then(ti, rest) => {
            let x = transform_instr(*ti, t, rg, ig, g);
            let y = transform_list(*rest, t, rg, ig, g + x.1.len());
            lemma_served_instr(*ti, t, rg, ig, g);
            lemma_served_list(*rest, t, rg, ig, g + x.1.len());
            lemma_has_kind_concat(x.0, y.0, t);
        },
    }
}

proof fn lemma_served_instr(ti: TypedInstr, t: Target, rg: u32, ig: u32, g: nat)
    ensures
        !list_has_kind(transform_instr(ti, t, rg, ig, g).0, t),
    decreases ti,
{
    if ti.origin == Origin::Program && expansion(t, ti, rg, ig) is Some {
        let e = expansion(t, ti, rg, ig).unwrap();
        lemma_fits_expansion_flat(t, ti, rg, ig);
        assert forall|i: int| 0 <= i < e.len() implies (#[trigger] e[i]).origin != Origin::Program
            && instr_bodies(e[i]) == 0 by {
            assert(e[i].origin != Origin::Program);
        }
        lemma_served_flat(e, t);
    } else {
        lemma_expansion_kind(t, ti, rg, ig);
        match ti.instr {
            Instr::Block(ty, inner) => {
                lemma_served_list(*inner, t, g as u32, (g + 1) as u32, g + 2);
            },
            Instr::Loop(ty, inner) => {
                lemma_served_list(*inner, t, g as u32, (g + 1) as u32, g + 2);
            },
            Instr::If(ty, then, None) => {
                lemma_served_list(*then, t, g as u32, (g + 1) as u32, g + 2);
            },
            Instr::If(ty, then, Some(els)) => {
                let r1 = transform_list(*then, t, g as u32, (g + 1) as u32, g + 2);
                let g2 = g + 2 + r1.1.len();
                lemma_served_list(*then, t, g as u32, (g + 1) as u32, g + 2);
                lemma_served_list(*els, t, g2 as u32, (g2 + 1) as u32, g2 + 2);
            },
            _ => {},
        }
        if let Body::Then(x, _) = transform_instr(ti, t, rg, ig, g).0 {
            lemma_single_has_kind(*x, t);
        }
    }
}

/// Each instruction of the program of the target's kind is served once: a
/// transformed body holds no instruction of that kind that instrumentation has
/// not served, so transforming it again with the same target leaves it as it
/// is.
pub proof fn law_transform_serves_once(t: Target, body: Body, g: nat, g2: nat)
    ensures
        !list_has_kind(transform_body(body, t, g).0, t),
        transform_body(transform_body(body, t, g).0, t, g2).0 == transform_body(body, t, g).0,
{
    lemma_served_list(body, t, g as u32, (g + 1) as u32, g + 2);
    law_transform_without_kind_is_identity(t, transform_body(body, t, g).0, g2);
}

proof fn lemma_fits_concat(a: Body, b: Body, t: Target)
    ensures
        list_fits(concat(a, b), t) == (list_fits(a, t) && list_fits(b, t)),
        nested_bodies(concat(a, b)) == nested_bodies(a) + nested_bodies(b),
    decreases a,
{
    match a {
        Body::End => {},
        Body::Then(ti, rest) => {
            lemma_fits_concat(*rest, b, t);
        },
    }
}

proof fn lemma_fits_flat_body(s: Seq<TypedInstr>, t: Target)
    requires
        forall|i: int| 0 <= i < s.len() ==> instr_fits(#[trigger] s[i], t) && instr_bodies(s[i]) == 0,
    ensures
        list_fits(body_of(s), t),
        nested_bodies(body_of(s)) == 0,
    decreases s.len(),
{
    if s.len() > 0 {
        assert(instr_fits(s[0], t) && instr_bodies(s[0]) == 0);
        assert forall|i: int| 0 <= i < s.drop_first().len() implies instr_fits(
            #[trigger] s.drop_first()[i],
            t,
        ) && instr_bodies(s.drop_first()[i]) == 0 by {
            assert(s.drop_first()[i] == s[i + 1]);
        }
        lemma_fits_flat_body(s.drop_first(), t);
    }
}

proof fn lemma_fits_expansion(t: Target, ti: TypedInstr, rg: u32, ig: u32, t2: Target)
    requires
        expansion(t, ti, rg, ig) is Some,
        instr_fits(ti, t2),
    ensures
        list_fits(body_of(expansion(t, ti, rg, ig).unwrap()), t2),
        nested_bodies(body_of(expansion(t, ti, rg, ig).unwrap())) == 0,
        instr_bodies(ti) == 0,
{
    let e = expansion(t, ti, rg, ig).unwrap();
    assert forall|i: int| 0 <= i < e.len() implies instr_fits(#[trigger] e[i], t2) && instr_bodies(
        e[i],
    ) == 0 by {
        assert(e[i].origin != Origin::Program);
    }
    lemma_fits_flat_body(e, t2);
}

proof fn lemma_fits_transform_list(b: Body, t: Target, rg: u32, ig: u32, g: nat, t2: Target)
    requires
        list_fits(b, t2),
    ensures
        list_fits(transform_list(b, t, rg, ig, g).0, t2),
        nested_bodies(transform_list(b, t, rg, ig, g).0) == nested_bodies(b),
    decreases b,
{
    match b {
        Body::End => {},
        Body::Then(ti, rest) => {
            let x = transform_instr(*ti, t, rg, ig, g);
            let y = transform_list(*rest, t, rg, ig, g + x.1.len());
            lemma_fits_transform_instr(*ti, t, rg, ig, g, t2);
            lemma_fits_transform_list(*rest, t, rg, ig, g + x.1.len(), t2);
            lemma_fits_concat(x.0, y.0, t2);
        },
    }
}

proof fn lemma_fits_transform_instr(ti: TypedInstr, t: Target, rg: u32, ig: u32, g: nat, t2: Target)
    requires
        instr_fits(ti, t2),
    ensures
        list_fits(transform_instr(ti, t, rg, ig, g).0, t2),
        nested_bodies(transform_instr(ti, t, rg, ig, g).0) == instr_bodies(ti),
    decreases ti,
{
    if ti.origin == Origin::Program && expansion(t, ti, rg, ig) is Some {
        lemma_fits_expansion(t, ti, rg, ig, t2);
    } else {
        match ti.instr {
            Instr::Block(ty, inner) => {
                lemma_fits_transform_list(*inner, t, g as u32, (g + 1) as u32, g + 2, t2);
            },
            Instr::Loop(ty, inner) => {
                lemma_fits_transform_list(*inner, t, g as u32, (g + 1) as u32, g + 2, t2);
            },
            Instr::If(ty, then, None) => {
                lemma_fits_transform_list(*then, t, g as u32, (g + 1) as u32, g + 2, t2);
            },
            Instr::If(ty, then, Some(els)) => {
                let r1 = transform_list(*then, t, g as u32, (g + 1) as u32, g + 2);
                let g2 = g + 2 + r1.1.len();
                lemma_fits_transform_list(*then, t, g as u32, (g + 1) as u32, g + 2, t2);
                lemma_fits_transform_list(*els, t, g2 as u32, (g2 + 1) as u32, g2 + 2, t2);
            },
            _ => {},
        }
        if let Body::Then(x, _) = transform_instr(ti, t, rg, ig, g).0 {
            lemma_single_fits(*x, t2);
        }
    }
}

proof fn lemma_single_fits(x: TypedInstr, t: Target)
    ensures
        list_fits(single(x), t) == instr_fits(x, t),
        nested_bodies(single(x)) == instr_bodies(x),
{
    assert(list_fits(Body::End, t));
    assert(nested_bodies(Body::End) == 0);
}

/// A transformed body can be transformed again: the immediates of its
/// program's instructions still fit, for any target, and it holds as many
/// nested bodies as before.
pub proof fn lemma_transform_body_keeps_fit(b: Body, t: Target, g: nat, t2: Target)
    requires
        list_fits(b, t2),
    ensures
        list_fits(transform_body(b, t, g).0, t2),
        nested_bodies(transform_body(b, t, g).0) == nested_bodies(b),
{
    lemma_fits_transform_list(b, t, g as u32, (g + 1) as u32, g + 2, t2);
}

/// The body after each of the targets has transformed it in turn, and the
/// globals then declared.
pub open spec fn transform_all_spec(targets: Seq<Target>, b: Body, g: Seq<GlobalDecl>) -> (Body, Seq<
    GlobalDecl,
>)
    decreases targets.len(),
{
    if targets.len() == 0 {
        (b, g)
    } else {
        let r = transform_all_spec(targets.drop_last(), b, g);
        let s = transform_body(r.0, targets.last(), r.1.len());
        (s.0, r.1 + s.1)
    }
}

proof fn lemma_transform_all_fits(targets: Seq<Target>, b: Body, g: Seq<GlobalDecl>, t2: Target)
    requires
        list_fits(b, t2),
    ensures
        list_fits(transform_all_spec(targets, b, g).0, t2),
        nested_bodies(transform_all_spec(targets, b, g).0) == nested_bodies(b),
        transform_all_spec(targets, b, g).1.len() == g.len() + targets.len() * (2
            + 2 * nested_bodies(b)),
    decreases targets.len(),
{
    if targets.len() > 0 {
        lemma_transform_all_fits(targets.drop_last(), b, g, t2);
        let r = transform_all_spec(targets.drop_last(), b, g);
        lemma_transform_body_keeps_fit(r.0, targets.last(), r.1.len(), t2);
        lemma_transform_body_len(r.0, targets.last(), r.1.len());
        let k = targets.len() - 1;
        let per = 2 + 2 * nested_bodies(b);
        assert(k * per + per == targets.len() * per) by (nonlinear_arith)
            requires
                k == targets.len() - 1,
        ;
    }
}

proof fn lemma_transform_body_len(b: Body, t: Target, g: nat)
    ensures
        transform_body(b, t, g).1.len() == 2 + 2 * nested_bodies(b),
{
    lemma_stores_len_list(b, t, g as u32, (g + 1) as u32, g + 2);
}

proof fn lemma_stores_len_list(b: Body, t: Target, rg: u32, ig: u32, g: nat)
    ensures
        transform_list(b, t, rg, ig, g).1.len() == 2 * nested_bodies(b),
    decreases b,
{
    match b {
        Body::End => {},
        Body::Then(ti, rest) => {
            let x = transform_instr(*ti, t, rg, ig, g);
            lemma_stores_len_instr(*ti, t, rg, ig, g);
            lemma_stores_len_list(*rest, t, rg, ig, g + x.1.len());
        },
    }
}

proof fn lemma_stores_len_instr(ti: TypedInstr, t: Target, rg: u32, ig: u32, g: nat)
    ensures
        transform_instr(ti, t, rg, ig, g).1.len() == 2 * instr_bodies(ti),
    decreases ti,
{
    if ti.origin == Origin::Program && expansion(t, ti, rg, ig) is Some {
        lemma_fits_expansion_flat(t, ti, rg, ig);
    } else {
        match ti.instr {
            Instr::Block(ty, inner) => {
                lemma_stores_len_list(*inner, t, g as u32, (g + 1) as u32, g + 2);
            },
            Instr::Loop(ty, inner) => {
                lemma_stores_len_list(*inner, t, g as u32, (g + 1) as u32, g + 2);
            },
            Instr::If(ty, then, None) => {
                lemma_stores_len_list(*then, t, g as u32, (g + 1) as u32, g + 2);
            },
            Instr::If(ty, then, Some(els)) => {
                let r1 = transform_list(*then, t, g as u32, (g + 1) as u32, g + 2);
                let g2 = g + 2 + r1.1.len();
                lemma_stores_len_list(*then, t, g as u32, (g + 1) as u32, g + 2);
                lemma_stores_len_list(*els, t, g2 as u32, (g2 + 1) as u32, g2 + 2);
            },
            _ => {},
        }
    }
}

proof fn lemma_fits_expansion_flat(t: Target, ti: TypedInstr, rg: u32, ig: u32)
    requires
        expansion(t, ti, rg, ig) is Some,
    ensures
        instr_bodies(ti) == 0,
{
}

/// Lets each target transform the body in turn, in order.
pub fn transform_all(targets: &Vec<Target>, body: Body, globals: &mut Globals) -> (res: Body)
    requires
        forall|i: int| 0 <= i < targets@.len() ==> list_fits(body, #[trigger] targets@[i]),
        old(globals)@.len() + targets@.len() * (2 + 2 * nested_bodies(body)) <= u32::MAX,
    ensures
        res == transform_all_spec(targets@, body, old(globals)@).0,
        final(globals)@ == transform_all_spec(targets@, body, old(globals)@).1,
{
    let ghost g0 = globals@;
    let ghost b0 = body;
    let ghost per = 2 + 2 * nested_bodies(body);
    let mut b = body;
    let mut i: usize = 0;
    proof {
        assert(targets@.take(0) =~= Seq::<Target>::empty());
    }
    while i < targets.len()
        invariant
            0 <= i <= targets@.len(),
            forall|k: int| 0 <= k < targets@.len() ==> list_fits(b0, #[trigger] targets@[k]),
            g0.len() + targets@.len() * per <= u32::MAX,
            per == 2 + 2 * nested_bodies(b0),
            (b, globals@) == transform_all_spec(targets@.take(i as int), b0, g0),
        decreases targets.len() - i,
    {
        let t = targets[i];
        proof {
            let prefix = targets@.take(i as int);
            assert forall|k: int| 0 <= k < targets@.len() implies list_fits(
                b,
                #[trigger] targets@[k],
            ) by {
                lemma_transform_all_fits(prefix, b0, g0, targets@[k]);
            }
            lemma_transform_all_fits(prefix, b0, g0, t);
            assert(globals@.len() + 2 + 2 * nested_bodies(b) <= u32::MAX) by (nonlinear_arith)
                requires
                    globals@.len() == g0.len() + i * per,
                    per == 2 + 2 * nested_bodies(b),
                    g0.len() + targets@.len() * per <= u32::MAX,
                    i < targets@.len(),
            ;
        }
        let ghost before = globals@;
        b = t.transform(b, globals);
        proof {
            let next = targets@.take(i + 1);
            assert(next.drop_last() =~= targets@.take(i as int));
            assert(next.last() == t);
        }
        i = i + 1;
    }
    proof {
        assert(targets@.take(i as int) =~= targets@);
    }
    b
}

/// The number of globals that transforming each of the bodies with `n`
/// targets declares.
pub open spec fn globals_needed(bodies: Seq<Body>, n: nat) -> nat
    decreases bodies.len(),
{
    if bodies.len() == 0 {
        0
    } else {
        globals_needed(bodies.drop_last(), n) + n * (2 + 2 * nested_bodies(bodies.last()))
    }
}

/// The bodies after each has been transformed by all the targets, in order,
/// one body after the other, and the globals then declared.
pub open spec fn rewrite_bodies_spec(bodies: Seq<Body>, targets: Seq<Target>, g: Seq<GlobalDecl>) -> (Seq<
    Body,
>, Seq<GlobalDecl>)
    decreases bodies.len(),
{
    if bodies.len() == 0 {
        (Seq::empty(), g)
    } else {
        let r = rewrite_bodies_spec(bodies.drop_last(), targets, g);
        let s = transform_all_spec(targets, bodies.last(), r.1);
        (r.0.push(s.0), s.1)
    }
}

proof fn lemma_rewrite_bodies_len(bodies: Seq<Body>, targets: Seq<Target>, g: Seq<GlobalDecl>)
    requires
        forall|i: int, k: int|
            0 <= i < bodies.len() && 0 <= k < targets.len() ==> list_fits(
                #[trigger] bodies[i],
                #[trigger] targets[k],
            ),
    ensures
        rewrite_bodies_spec(bodies, targets, g).1.len() == g.len() + globals_needed(
            bodies,
            targets.len(),
        ),
        rewrite_bodies_spec(bodies, targets, g).0.len() == bodies.len(),
    decreases bodies.len(),
{
    if bodies.len() > 0 {
        let d = bodies.drop_last();
        assert forall|i: int, k: int| 0 <= i < d.len() && 0 <= k < targets.len() implies list_fits(
            #[trigger] d[i],
            #[trigger] targets[k],
        ) by {
            assert(d[i] == bodies[i]);
        }
        lemma_rewrite_bodies_len(d, targets, g);
        let r = rewrite_bodies_spec(d, targets, g);
        assert(list_fits(bodies[bodies.len() - 1], targets[0]) || targets.len() == 0);
        if targets.len() > 0 {
            lemma_transform_all_fits(targets, bodies.last(), r.1, targets[0]);
        } else {
            assert(transform_all_spec(targets, bodies.last(), r.1).1 == r.1);
            assert(targets.len() * (2 + 2 * nested_bodies(bodies.last())) == 0) by (nonlinear_arith)
                requires
                    targets.len() == 0,
            ;
        }
    }
}

/// Transforms each body with all the targets, in order, one body after the
/// other.
pub fn rewrite_bodies(bodies: Vec<Body>, targets: &Vec<Target>, globals: &mut Globals) -> (res: Vec<
    Body,
>)
    requires
        forall|i: int, k: int|
            0 <= i < bodies@.len() && 0 <= k < targets@.len() ==> list_fits(
                #[trigger] bodies@[i],
                #[trigger] targets@[k],
            ),
        old(globals)@.len() + globals_needed(bodies@, targets@.len()) <= u32::MAX,
    ensures
        res@ == rewrite_bodies_spec(bodies@, targets@, old(globals)@).0,
        final(globals)@ == rewrite_bodies_spec(bodies@, targets@, old(globals)@).1,
{
    let ghost g0 = globals@;
    let ghost all = bodies@;
    let mut rest = bodies;
    let mut res: Vec<Body> = Vec::new();
    let ghost done: int = 0;
    proof {
        assert(all.take(0) =~= Seq::<Body>::empty());
        assert(all.skip(0) =~= all);
    }
    while rest.len() > 0
        invariant
            0 <= done <= all.len(),
            rest@ == all.skip(done),
            forall|i: int, k: int|
                0 <= i < all.len() && 0 <= k < targets@.len() ==> list_fits(
                    #[trigger] all[i],
                    #[trigger] targets@[k],
                ),
            g0.len() + globals_needed(all, targets@.len()) <= u32::MAX,
            (res@, globals@) == rewrite_bodies_spec(all.take(done), targets@, g0),
        decreases rest.len(),
    {
        let ghost before = rest@;
        let b = rest.remove(0);
        proof {
            assert(b == all[done]);
            let prefix = all.take(done);
            let next = all.take(done + 1);
            assert(next.drop_last() =~= prefix);
            assert(next.last() == b);
            assert forall|i: int, k: int|
                0 <= i < next.len() && 0 <= k < targets@.len() implies list_fits(
                #[trigger] next[i],
                #[trigger] targets@[k],
            ) by {
                assert(next[i] == all[i]);
            }
            assert forall|i: int, k: int|
                0 <= i < prefix.len() && 0 <= k < targets@.len() implies list_fits(
                #[trigger] prefix[i],
                #[trigger] targets@[k],
            ) by {
                assert(prefix[i] == all[i]);
            }
            lemma_rewrite_bodies_len(prefix, targets@, g0);
            lemma_globals_needed_prefix(all, targets@.len(), done + 1);
            assert(globals_needed(next, targets@.len()) == globals_needed(prefix, targets@.len())
                + targets@.len() * (2 + 2 * nested_bodies(b)));
            assert forall|k: int| 0 <= k < targets@.len() implies list_fits(b, #[trigger] targets@[k]) by {
                assert(list_fits(all[done], targets@[k]));
            }
            assert(rest@ =~= all.skip(done + 1));
        }
        let nb = transform_all(targets, b, globals);
        res.push(nb);
        proof {
            done = done + 1;
        }
    }
    proof {
        assert(all.take(done) =~= all);
    }
    res
}

proof fn lemma_globals_needed_prefix(bodies: Seq<Body>, n: nat, k: int)
    requires
        0 <= k <= bodies.len(),
    ensures
        globals_needed(bodies.take(k), n) <= globals_needed(bodies, n),
    decreases bodies.len(),
{
    if k < bodies.len() {
        assert(bodies.drop_last().take(k) =~= bodies.take(k));
        lemma_globals_needed_prefix(bodies.drop_last(), n, k);
    } else {
        assert(bodies.take(k) =~= bodies);
    }
}

proof fn lemma_transform_all_keeps_program(targets: Seq<Target>, b: Body, g: Seq<GlobalDecl>)
    ensures
        strip_list(transform_all_spec(targets, b, g).0) == strip_list(b),
    decreases targets.len(),
{
    if targets.len() > 0 {
        lemma_transform_all_keeps_program(targets.drop_last(), b, g);
        let r = transform_all_spec(targets.drop_last(), b, g);
        law_transform_keeps_program(targets.last(), r.0, r.1.len());
    }
}

/// Rewriting bodies with any targets only adds instructions: dropping what
/// was added from each rewritten body gives back the program's part of that
/// body.
pub proof fn law_rewrite_keeps_program(bodies: Seq<Body>, targets: Seq<Target>, g: Seq<GlobalDecl>)
    ensures
        rewrite_bodies_spec(bodies, targets, g).0.len() == bodies.len(),
        forall|i: int|
            0 <= i < bodies.len() ==> strip_list(
                #[trigger] rewrite_bodies_spec(bodies, targets, g).0[i],
            ) == strip_list(bodies[i]),
    decreases bodies.len(),
{
    if bodies.len() > 0 {
        let d = bodies.drop_last();
        law_rewrite_keeps_program(d, targets, g);
        let r = rewrite_bodies_spec(d, targets, g);
        lemma_transform_all_keeps_program(targets, bodies.last(), r.1);
        let out = rewrite_bodies_spec(bodies, targets, g).0;
        assert forall|i: int| 0 <= i < bodies.len() implies strip_list(#[trigger] out[i])
            == strip_list(bodies[i]) by {
            if i < d.len() {
                assert(out[i] == r.0[i]);
                assert(d[i] == bodies[i]);
            }
        }
    }
}

} // verus!
