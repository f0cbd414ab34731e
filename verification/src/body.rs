//! A structured (nested) model of WebAssembly function bodies, the form in
//! which instrumentation rewrites them.
use vstd::prelude::*;

verus! {

/// Reference types of WebAssembly.
#[derive(Debug, Clone, Copy, PartialEq, Eq, Structural)]
pub enum RefType {
    FuncRef,
    ExternRef,
}

/// Value types of WebAssembly.
#[derive(Debug, Clone, Copy, PartialEq, Eq, Structural)]
pub enum ValType {
    I32,
    I64,
    F32,
    F64,
    Ref(RefType),
}

/// Where an instruction of a body comes from.
#[derive(Debug, Clone, Copy, PartialEq, Eq, Structural)]
pub enum Origin {
    /// An instruction of the program that no instrumentation has served yet.
    Program,
    /// An instruction that instrumentation added.
    Instrumentation,
    /// An instruction of the program put back in place after instrumentation
    /// served it; it is not instrumented again.
    Placed,
}

/// Where an instruction of the program stands: the index of its function and
/// its index within that function's body. The instructions that instrumentation
/// adds around it carry its location, and trap calls hand it to the analysis.
#[derive(Debug, Clone, Copy, PartialEq, Eq, Structural)]
pub struct Location {
    pub function: u32,
    pub instruction: u32,
}

/// The instructions that the table transformations read or emit; every other
/// instruction is carried along as `Other` with its opcode.
/// Structured instructions hold their nested bodies.
#[derive(Debug, PartialEq, Eq)]
pub enum Instr {
    Block(u32, Box<Body>),
    Loop(u32, Box<Body>),
    If(u32, Box<Body>, Option<Box<Body>>),
    RefFunc(u32),
    RefNull(RefType),
    RefIsNull,
    TableGet(u32),
    TableSet(u32),
    TableSize(u32),
    TableGrow(u32),
    TableFill(u32),
    /// `table.copy` with the destination and the source table.
    TableCopy(u32, u32),
    /// `table.init` with the table and the element segment.
    TableInit(u32, u32),
    ElemDrop(u32),
    I32Const(i32),
    I64Const(i64),
    Call(u32),
    GlobalGet(u32),
    GlobalSet(u32),
    Other(u32),
}

/// An instruction together with its origin and location.
#[derive(Debug, PartialEq, Eq)]
pub struct TypedInstr {
    pub instr: Instr,
    pub origin: Origin,
    pub location: Location,
}

/// A body: a list of instructions.
#[derive(Debug, PartialEq, Eq)]
pub enum Body {
    End,
    Then(Box<TypedInstr>, Box<Body>),
}

/// The instructions of a body, in order.
pub open spec fn instrs(b: Body) -> Seq<TypedInstr>
    decreases b,
{
    match b {
        Body::End => Seq::empty(),
        Body::Then(ti, rest) => seq![*ti] + instrs(*rest),
    }
}

/// The body made of the instructions of `a` followed by those of `b`.
pub open spec fn concat(a: Body, b: Body) -> Body
    decreases a,
{
    match a {
        Body::End => b,
        Body::Then(ti, rest) => Body::Then(ti, Box::new(concat(*rest, b))),
    }
}

/// The body holding exactly the given instructions.
pub open spec fn body_of(s: Seq<TypedInstr>) -> Body
    decreases s.len(),
{
    if s.len() == 0 {
        Body::End
    } else {
        Body::Then(Box::new(s[0]), Box::new(body_of(s.drop_first())))
    }
}

/// `instrs` of a concatenation is the concatenation of the `instrs`.
pub proof fn lemma_instrs_concat(a: Body, b: Body)
    ensures
        instrs(concat(a, b)) == instrs(a) + instrs(b),
    decreases a,
{
    match a {
        Body::End => {
            assert(instrs(a) + instrs(b) =~= instrs(b));
        },
        Body::Then(ti, rest) => {
            lemma_instrs_concat(*rest, b);
            assert(seq![*ti] + (instrs(*rest) + instrs(b)) =~= (seq![*ti] + instrs(*rest))
                + instrs(b));
        },
    }
}

/// Concatenation is associative.
pub proof fn lemma_concat_assoc(a: Body, b: Body, c: Body)
    ensures
        concat(concat(a, b), c) == concat(a, concat(b, c)),
    decreases a,
{
    match a {
        Body::End => {},
        Body::Then(ti, rest) => {
            lemma_concat_assoc(*rest, b, c);
        },
    }
}

/// The empty body is a right unit of concatenation.
pub proof fn lemma_concat_end(a: Body)
    ensures
        concat(a, Body::End) == a,
    decreases a,
{
    match a {
        Body::End => {},
        Body::Then(ti, rest) => {
            lemma_concat_end(*rest);
        },
    }
}

/// `body_of` gives back the instructions it was made of.
pub proof fn lemma_instrs_body_of(s: Seq<TypedInstr>)
    ensures
        instrs(body_of(s)) == s,
    decreases s.len(),
{
    if s.len() > 0 {
        lemma_instrs_body_of(s.drop_first());
        assert(seq![s[0]] + s.drop_first() =~= s);
    }
}

impl Body {
    /// The body that runs the instructions of `self` and then those of `other`.
    pub fn append(self, other: Body) -> (res: Body)
        ensures
            res == concat(self, other),
        decreases self,
    {
        match self {
            Body::End => other,
            Body::Then(ti, rest) => Body::Then(ti, Box::new((*rest).append(other))),
        }
    }

    /// The body holding the instructions of `v`, in order.
    pub fn from_instrs(v: Vec<TypedInstr>) -> (res: Body)
        ensures
            res == body_of(v@),
    {
        let mut v = v;
        let mut res = Body::End;
        let ghost full = v@;
        while v.len() > 0
            invariant
                full == v@ + instrs(res),
                res == body_of(instrs(res)),
            decreases v.len(),
        {
            let ghost before = v@;
            let ti = v.pop().unwrap();
            let ghost old_res = res;
            res = Body::Then(Box::new(ti), Box::new(res));
            proof {
                assert(instrs(res) == seq![ti] + instrs(old_res));
                assert(instrs(res).drop_first() =~= instrs(old_res));
                assert(before =~= v@.push(ti));
                assert(full =~= v@ + instrs(res));
            }
        }
        proof {
            assert(full =~= instrs(res));
        }
        res
    }

    /// The instructions of the body, in order.
    pub fn into_instrs(self) -> (res: Vec<TypedInstr>)
        ensures
            res@ == instrs(self),
    {
        let mut res: Vec<TypedInstr> = Vec::new();
        let mut cur = self;
        let ghost full = instrs(self);
        loop
            invariant
                full == instrs(self),
                full == res@ + instrs(cur),
            decreases cur,
        {
            match cur {
                Body::End => {
                    proof {
                        assert(full =~= res@);
                    }
                    return res;
                },
                Body::Then(ti, rest) => {
                    res.push(*ti);
                    proof {
                        assert(full =~= res@ + instrs(*rest));
                    }
                    cur = *rest;
                },
            }
        }
    }
}

impl TypedInstr {
    /// An instruction of the program at `location`.
    pub fn program(instr: Instr, location: Location) -> (res: TypedInstr)
        ensures
            res == (TypedInstr { instr, origin: Origin::Program, location }),
    {
        TypedInstr { instr, origin: Origin::Program, location }
    }
}

} // verus!
