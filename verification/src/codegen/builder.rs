use vstd::prelude::*;

use super::ir::{instr_refs_ok, is_terminator, BasicBlock, Instr, IrType, RetType};
use super::select::lowered_type;
use crate::analysis::name_table::NameTable;
use crate::value::ValueType;

verus! {

/// Where a local variable lives, and its source type.
#[derive(Debug)]
pub struct VarSlot {
    pub ptr: usize,
    pub ty: ValueType,
}

/// The signature of a function of the module.
#[derive(Debug)]
pub struct FnSig {
    pub params: Vec<IrType>,
    pub ret: RetType,
}

/// Why lowering a program failed: a construct that has no lowering.
#[derive(Debug)]
pub enum CodegenError {
    /// A type without a machine type.
    UnsupportedType(ValueType),
    /// A statement that is not lowered inside a function body.
    UnsupportedStatement,
    /// An expression that is not lowered.
    UnsupportedExpression,
    /// A variable that no enclosing scope declares.
    UndefinedVariable(String),
    /// A function that the module does not declare.
    UndefinedFunction(String),
    /// A call of a function that returns nothing, used as a value.
    VoidCall(String),
    /// A conversion between two types that has no lowering.
    UnsupportedCast(ValueType, ValueType),
    /// An operator applied to a type it has no lowering for.
    UnsupportedOperator(ValueType),
    /// Printing a value of a type that cannot be printed.
    UnsupportedPrint(ValueType),
    /// An operand whose machine type the operation does not take.
    TypeMismatch,
    /// A function body that reads more parameters than its signature has.
    MissingParameter(String),
}

/// The blocks of a function under construction, the block instructions go
/// to, the number of values defined so far, and the scopes of local
/// variables, innermost last.
pub struct FnBuilder {
    pub blocks: Vec<BasicBlock>,
    pub current: usize,
    pub next_value: usize,
    /// Each value handed out, in order: a value's number is its position
    /// here, so the numbering never outruns what memory can hold.
    pub issued: Vec<usize>,
    pub vars: Vec<NameTable<VarSlot>>,
    /// The instruction that defines each value defined so far.
    pub defs: Ghost<Map<usize, Instr>>,
}

/// The instructions of each block only read values and name blocks that
/// exist.
pub open spec fn blocks_ok(blocks: Seq<BasicBlock>, values: nat) -> bool {
    forall|b: int, k: int|
        0 <= b < blocks.len() && 0 <= k < blocks[b].instrs@.len() ==> instr_refs_ok(
            #[trigger] blocks[b].instrs@[k],
            values,
            blocks.len(),
        )
}

/// Each value recorded as defined names the instruction that defines it,
/// and that instruction stands in one of the blocks.
pub open spec fn defs_in(defs: Map<usize, Instr>, blocks: Seq<BasicBlock>) -> bool {
    forall|d: usize|
        #[trigger] defs.contains_key(d) ==> instr_dst(defs[d]) == Some(d) && exists|c: int, k: int|
            0 <= c < blocks.len() && 0 <= k < blocks[c].instrs@.len() && #[trigger] blocks[c].instrs@[k]
                == defs[d]
}

/// Every variable lives in a value that exists, and has a machine type.
pub open spec fn vars_ok(vars: Seq<NameTable<VarSlot>>, values: nat) -> bool {
    forall|i: int, n: Seq<char>|
        0 <= i < vars.len() && #[trigger] vars[i]@.dom().contains(n) ==> vars[i]@[n].ptr < values
            && lowered_type(vars[i]@[n].ty) is Some
}

/// The source types of the variables of each scope, outermost first.
pub open spec fn scope_model(vars: Seq<NameTable<VarSlot>>) -> Seq<Map<Seq<char>, ValueType>> {
    vars.map_values(|t: NameTable<VarSlot>| t@.map_values(|s: VarSlot| s.ty))
}

/// What `name` stands for in nested scopes: its entry in the innermost scope
/// that has one.
pub open spec fn innermost<V>(scopes: Seq<Map<Seq<char>, V>>, name: Seq<char>) -> Option<V>
    decreases scopes.len(),
{
    if scopes.len() == 0 {
        None
    } else if scopes.last().contains_key(name) {
        Some(scopes.last()[name])
    } else {
        innermost(scopes.drop_last(), name)
    }
}

/// The type of the variable `name` refers to.
pub open spec fn var_type(scopes: Seq<Map<Seq<char>, ValueType>>, name: Seq<char>) -> Option<
    ValueType,
> {
    innermost(scopes, name)
}

/// The slot of the variable `name` refers to.
pub open spec fn var_slot(slots: Seq<Map<Seq<char>, VarSlot>>, name: Seq<char>) -> Option<VarSlot> {
    innermost(slots, name)
}

/// The value an instruction defines, if it defines one.
pub open spec fn instr_dst(i: Instr) -> Option<usize> {
    match i {
        Instr::Alloca { dst, .. } => Some(dst),
        Instr::Load { dst, .. } => Some(dst),
        Instr::ConstInt { dst, .. } => Some(dst),
        Instr::ConstFloat { dst, .. } => Some(dst),
        Instr::ConstStr { dst, .. } => Some(dst),
        Instr::NullPtr { dst } => Some(dst),
        Instr::Int { dst, .. } => Some(dst),
        Instr::Float { dst, .. } => Some(dst),
        Instr::IntCmp { dst, .. } => Some(dst),
        Instr::FloatCmp { dst, .. } => Some(dst),
        Instr::Not { dst, .. } => Some(dst),
        Instr::Neg { dst, .. } => Some(dst),
        Instr::FNeg { dst, .. } => Some(dst),
        Instr::Cast { dst, .. } => Some(dst),
        Instr::Call { dst, .. } => dst,
        _ => None,
    }
}

/// The definitions after an instruction is added.
pub open spec fn record(defs: Map<usize, Instr>, i: Instr) -> Map<usize, Instr> {
    match instr_dst(i) {
        Some(d) => defs.insert(d, i),
        None => defs,
    }
}

/// Adds a variable to the innermost scope.
pub open spec fn add_var(scopes: Seq<Map<Seq<char>, ValueType>>, name: Seq<char>, t: ValueType) -> Seq<
    Map<Seq<char>, ValueType>,
> {
    if scopes.len() == 0 {
        scopes
    } else {
        scopes.update(scopes.len() - 1, scopes.last().insert(name, t))
    }
}

/// The blocks of `new` extend those of `old`: no block is lost or renamed,
/// and instructions are only ever added at the end of a block.
pub open spec fn grows(old: Seq<BasicBlock>, new: Seq<BasicBlock>) -> bool {
    &&& old.len() <= new.len()
    &&& forall|k: int|
        #![trigger new[k]]
        0 <= k < old.len() ==> new[k].name@ == old[k].name@ && old[k].instrs@.len()
            <= new[k].instrs@.len() && new[k].instrs@.subrange(0, old[k].instrs@.len() as int)
            == old[k].instrs@
}

/// Growing never drops a block.
pub proof fn lemma_grows_len(a: Seq<BasicBlock>, b: Seq<BasicBlock>)
    requires
        grows(a, b),
    ensures
        a.len() <= b.len(),
{
}

/// Blocks grow from themselves.
pub proof fn lemma_grows_refl(a: Seq<BasicBlock>)
    ensures
        grows(a, a),
{
    assert forall|k: int| #![trigger a[k]] 0 <= k < a.len() implies a[k].instrs@.subrange(
        0,
        a[k].instrs@.len() as int,
    ) == a[k].instrs@ by {
        assert(a[k].instrs@.subrange(0, a[k].instrs@.len() as int) =~= a[k].instrs@);
    }
}

/// An instruction of a block stays in it as the blocks grow.
pub proof fn lemma_grows_contains(a: Seq<BasicBlock>, b: Seq<BasicBlock>, k: int, i: Instr)
    requires
        grows(a, b),
        0 <= k < a.len(),
        a[k].instrs@.contains(i),
    ensures
        b[k].instrs@.contains(i),
{
    let j = choose|j: int| 0 <= j < a[k].instrs@.len() && a[k].instrs@[j] == i;
    assert(b[k].instrs@.subrange(0, a[k].instrs@.len() as int)[j] == b[k].instrs@[j]);
}

/// Where the blocks only grow, the instructions that define values are
/// still in them.
pub proof fn lemma_defs_in_grows(defs: Map<usize, Instr>, b1: Seq<BasicBlock>, b2: Seq<BasicBlock>)
    requires
        defs_in(defs, b1),
        grows(b1, b2),
    ensures
        defs_in(defs, b2),
{
    assert forall|d: usize| #[trigger] defs.contains_key(d) implies instr_dst(defs[d]) == Some(d)
        && exists|c: int, k: int|
        0 <= c < b2.len() && 0 <= k < b2[c].instrs@.len() && #[trigger] b2[c].instrs@[k]
            == defs[d] by {
        let (c, k) = choose|c: int, k: int|
            0 <= c < b1.len() && 0 <= k < b1[c].instrs@.len() && #[trigger] b1[c].instrs@[k]
                == defs[d];
        assert(b2[c].instrs@.subrange(0, b1[c].instrs@.len() as int)[k] == b2[c].instrs@[k]);
    }
}

/// Growth composes.
pub proof fn lemma_grows_trans(a: Seq<BasicBlock>, b: Seq<BasicBlock>, c: Seq<BasicBlock>)
    requires
        grows(a, b),
        grows(b, c),
    ensures
        grows(a, c),
{
    assert forall|k: int| #![trigger c[k]] 0 <= k < a.len() implies c[k].name@ == a[k].name@
        && a[k].instrs@.len() <= c[k].instrs@.len() && c[k].instrs@.subrange(
        0,
        a[k].instrs@.len() as int,
    ) == a[k].instrs@ by {
        let ai = a[k].instrs@;
        let bi = b[k].instrs@;
        let ci = c[k].instrs@;
        assert(bi.subrange(0, ai.len() as int) == ai);
        assert(ci.subrange(0, bi.len() as int) == bi);
        assert(ci.subrange(0, ai.len() as int) =~= bi.subrange(0, ai.len() as int));
    }
}

/// An instruction that refers to existing values and blocks still does once
/// there are more of them.
pub proof fn lemma_refs_mono(i: Instr, v1: nat, b1: nat, v2: nat, b2: nat)
    requires
        instr_refs_ok(i, v1, b1),
        v1 <= v2,
        b1 <= b2,
    ensures
        instr_refs_ok(i, v2, b2),
{
    if let Instr::Call { args, .. } = i {
        assert forall|k: int| 0 <= k < args@.len() implies #[trigger] args@[k] < v2 by {}
    }
}

/// A block is closed when it ends in a terminator.
pub open spec fn closed(b: BasicBlock) -> bool {
    b.instrs@.len() > 0 && is_terminator(b.instrs@.last())
}

/// How the blocks of a function evolve while a statement is lowered, from
/// blocks `a` with current block `ac` to blocks `c` with current block `cc`:
/// no block other than the entry and the current one changes, every block
/// added is closed unless it is the new current block, the block left is
/// closed (unless it is the entry), and the new current block is the old one
/// or an added one.
pub open spec fn nested(a: Seq<BasicBlock>, ac: int, c: Seq<BasicBlock>, cc: int) -> bool {
    &&& forall|k: int| #![trigger c[k]] 0 < k < a.len() && k != ac ==> c[k] == a[k]
    &&& forall|k: int| #![trigger c[k]] a.len() <= k < c.len() && k != cc ==> closed(c[k])
    &&& cc != ac && ac != 0 ==> closed(c[ac])
    &&& cc == ac || a.len() <= cc
}

/// The evolution of blocks under statements composes: lowering one
/// statement after another evolves the blocks as one statement does.
pub proof fn lemma_nested_trans(
    a: Seq<BasicBlock>,
    ac: int,
    b: Seq<BasicBlock>,
    bc: int,
    c: Seq<BasicBlock>,
    cc: int,
)
    requires
        nested(a, ac, b, bc),
        nested(b, bc, c, cc),
        0 <= ac < a.len(),
        a.len() <= b.len(),
        b.len() <= c.len(),
        0 <= bc < b.len(),
    ensures
        nested(a, ac, c, cc),
{
    assert forall|k: int| #![trigger c[k]] 0 < k < a.len() && k != ac implies c[k] == a[k] by {
        assert(b[k] == a[k]);
    }
    assert forall|k: int| #![trigger c[k]] a.len() <= k < c.len() && k != cc implies closed(c[k]) by {
        if k < b.len() {
            if k != bc {
                assert(closed(b[k]));
                assert(c[k] == b[k]);
            } else {
                assert(cc != bc && bc != 0);
            }
        }
    }
    if cc != ac && ac != 0 {
        if bc != ac {
            assert(closed(b[ac]));
            assert(c[ac] == b[ac]);
        }
    }
}

/// Looking a name up in the first `n` scopes gives what looking it up in
/// all of them gives, when the later scopes do not declare it.
proof fn lemma_innermost_prefix<V>(scopes: Seq<Map<Seq<char>, V>>, name: Seq<char>, n: int)
    requires
        0 <= n <= scopes.len(),
        forall|j: int| n <= j < scopes.len() ==> !(#[trigger] scopes[j]).contains_key(name),
    ensures
        innermost(scopes, name) == innermost(scopes.subrange(0, n), name),
    decreases scopes.len() - n,
{
    if n < scopes.len() {
        let t = scopes.drop_last();
        assert(!scopes[scopes.len() - 1].contains_key(name));
        assert forall|j: int| n <= j < t.len() implies !(#[trigger] t[j]).contains_key(name) by {
            assert(t[j] == scopes[j]);
        }
        lemma_innermost_prefix(t, name, n);
        assert(t.subrange(0, n) =~= scopes.subrange(0, n));
    } else {
        assert(scopes.subrange(0, n) =~= scopes);
    }
}

impl FnBuilder {
    /// The builder is well formed: there is a current block, and every value
    /// an instruction or a variable's slot names, and every value defined, has
    /// been handed out.
    pub open spec fn wf(self) -> bool {
        &&& self.blocks@.len() > 0
        &&& self.current < self.blocks@.len()
        &&& self.issued@.len() == self.next_value
        &&& forall|i: int| 0 <= i < self.issued@.len() ==> #[trigger] self.issued@[i] == i
        &&& blocks_ok(self.blocks@, self.next_value as nat)
        &&& vars_ok(self.vars@, self.next_value as nat)
        &&& forall|d: usize| #[trigger] self.defs@.contains_key(d) ==> d < self.next_value
        &&& defs_in(self.defs@, self.blocks@)
    }

    /// The instructions of the block instructions go to.
    pub open spec fn current_instrs(self) -> Seq<Instr> {
        self.blocks@[self.current as int].instrs@
    }

    /// The source types of the variables in scope, outermost scope first.
    pub open spec fn scopes(self) -> Seq<Map<Seq<char>, ValueType>> {
        scope_model(self.vars@)
    }

    /// The slots of the variables in scope, outermost scope first.
    pub open spec fn slots(self) -> Seq<Map<Seq<char>, VarSlot>> {
        self.vars@.map_values(|t: NameTable<VarSlot>| t@)
    }

    /// A builder for a function whose first `params` values are its
    /// parameters, with an empty entry block.
    pub fn new(params: usize) -> (r: Self)
        ensures
            r.wf(),
            r.blocks@.len() == 1,
            r.blocks@[0].name@ == "entry"@,
            r.blocks@[0].instrs@.len() == 0,
            r.current == 0,
            r.next_value == params,
            r.vars@.len() == 0,
            r.defs@ == Map::<usize, Instr>::empty(),
    {
        let mut blocks: Vec<BasicBlock> = Vec::new();
        blocks.push(BasicBlock { name: String::from_str("entry"), instrs: Vec::new() });
        let mut issued: Vec<usize> = Vec::new();
        let mut i: usize = 0;
        while i < params
            invariant
                i <= params,
                issued@.len() == i,
                forall|k: int| 0 <= k < issued@.len() ==> #[trigger] issued@[k] == k,
            decreases params - i,
        {
            issued.push(i);
            i = i + 1;
        }
        FnBuilder {
            blocks,
            current: 0,
            next_value: params,
            issued,
            vars: Vec::new(),
            defs: Ghost(Map::empty()),
        }
    }

    /// A new value: the next number in order.
    pub fn fresh_value(&mut self) -> (r: usize)
        requires
            old(self).wf(),
        ensures
            final(self).wf(),
            r == old(self).next_value && final(self).next_value == r + 1,
            !final(self).defs@.contains_key(r),
            final(self).defs == old(self).defs,
            final(self).blocks == old(self).blocks,
            final(self).current == old(self).current,
            final(self).vars == old(self).vars,
    {
        let r = self.next_value;
        self.issued.push(r);
        let count = self.issued.len();
        assert(count == r + 1);
        self.next_value = count;
        proof {
            let bs = self.blocks@;
            assert forall|b: int, k: int|
                0 <= b < bs.len() && 0 <= k < bs[b].instrs@.len() implies instr_refs_ok(
                #[trigger] bs[b].instrs@[k],
                self.next_value as nat,
                bs.len(),
            ) by {
                lemma_refs_mono(bs[b].instrs@[k], r as nat, bs.len(), self.next_value as nat, bs.len());
            }
        }
        r
    }

    /// Adds an instruction at the end of block `b`.
    pub fn push_to(&mut self, b: usize, i: Instr)
        requires
            old(self).wf(),
            b < old(self).blocks@.len(),
            instr_refs_ok(i, old(self).next_value as nat, old(self).blocks@.len()),
            instr_dst(i) matches Some(d) ==> !old(self).defs@.contains_key(d),
        ensures
            final(self).wf(),
            final(self).defs@ == record(old(self).defs@, i),
            grows(old(self).blocks@, final(self).blocks@),
            final(self).blocks@.len() == old(self).blocks@.len(),
            final(self).blocks@[b as int].instrs@ == old(self).blocks@[b as int].instrs@.push(i),
            forall|c: int|
                0 <= c < old(self).blocks@.len() && c != b ==> #[trigger] final(self).blocks@[c]
                    == old(self).blocks@[c],
            final(self).current == old(self).current,
            final(self).next_value == old(self).next_value,
            final(self).vars == old(self).vars,
    {
        let ghost old_blocks = self.blocks@;
        let ghost new_defs = record(self.defs@, i);
        let mut block = self.blocks.remove(b);
        block.instrs.push(i);
        self.blocks.insert(b, block);
        proof {
            self.defs = Ghost(new_defs);
            match instr_dst(i) {
                Some(d) => {
                    assert(d < self.next_value) by {
                        match i {
                            Instr::Call { dst, .. } => {},
                            _ => {},
                        }
                    }
                },
                None => {},
            }
            let bs = self.blocks@;
            assert(bs.len() == old_blocks.len());
            assert forall|c: int| 0 <= c < old_blocks.len() && c != b implies #[trigger] bs[c]
                == old_blocks[c] by {}
            assert forall|c: int, k: int|
                0 <= c < bs.len() && 0 <= k < bs[c].instrs@.len() implies instr_refs_ok(
                #[trigger] bs[c].instrs@[k],
                self.next_value as nat,
                bs.len(),
            ) by {
                if c == b {
                    if k < old_blocks[c].instrs@.len() {
                        assert(bs[c].instrs@[k] == old_blocks[c].instrs@[k]);
                    }
                } else {
                    assert(bs[c] == old_blocks[c]);
                }
            }
            assert forall|k: int| #![trigger bs[k]] 0 <= k < old_blocks.len() implies bs[k].name@
                == old_blocks[k].name@ && old_blocks[k].instrs@.len() <= bs[k].instrs@.len()
                && bs[k].instrs@.subrange(0, old_blocks[k].instrs@.len() as int)
                == old_blocks[k].instrs@ by {
                assert(bs[k].instrs@.subrange(0, old_blocks[k].instrs@.len() as int)
                    =~= old_blocks[k].instrs@);
            }
            lemma_defs_in_grows(old(self).defs@, old_blocks, bs);
            let last = old_blocks[b as int].instrs@.len() as int;
            assert(bs[b as int].instrs@[last] == i);
            assert forall|d: usize| #[trigger] new_defs.contains_key(d) implies instr_dst(new_defs[d])
                == Some(d) && exists|c: int, k: int|
                0 <= c < bs.len() && 0 <= k < bs[c].instrs@.len() && #[trigger] bs[c].instrs@[k]
                    == new_defs[d] by {
                if instr_dst(i) == Some(d) {
                    assert(new_defs[d] == i);
                    assert(bs[b as int].instrs@[last] == new_defs[d]);
                } else {
                    assert(old(self).defs@.contains_key(d));
                    assert(new_defs[d] == old(self).defs@[d]);
                }
            }
        }
    }

    /// Adds an instruction at the end of the current block.
    pub fn push(&mut self, i: Instr)
        requires
            old(self).wf(),
            instr_refs_ok(i, old(self).next_value as nat, old(self).blocks@.len()),
            instr_dst(i) matches Some(d) ==> !old(self).defs@.contains_key(d),
        ensures
            final(self).wf(),
            final(self).defs@ == record(old(self).defs@, i),
            grows(old(self).blocks@, final(self).blocks@),
            final(self).blocks@.len() == old(self).blocks@.len(),
            final(self).current_instrs() == old(self).current_instrs().push(i),
            forall|c: int|
                0 <= c < old(self).blocks@.len() && c != old(self).current
                    ==> #[trigger] final(self).blocks@[c] == old(self).blocks@[c],
            final(self).current == old(self).current,
            final(self).next_value == old(self).next_value,
            final(self).vars == old(self).vars,
    {
        let b = self.current;
        self.push_to(b, i);
    }

    /// Appends an empty block; gives its number.
    pub fn append_block(&mut self, name: &str) -> (r: usize)
        requires
            old(self).wf(),
        ensures
            final(self).defs == old(self).defs,
            final(self).wf(),
            grows(old(self).blocks@, final(self).blocks@),
            r == old(self).blocks@.len(),
            final(self).blocks@.len() == old(self).blocks@.len() + 1,
            final(self).blocks@[r as int].name@ == name@,
            final(self).blocks@[r as int].instrs@.len() == 0,
            final(self).current == old(self).current,
            final(self).next_value == old(self).next_value,
            final(self).vars == old(self).vars,
            forall|c: int|
                0 <= c < old(self).blocks@.len() ==> #[trigger] final(self).blocks@[c] == old(
                    self,
                ).blocks@[c],
    {
        let r = self.blocks.len();
        let ghost old_blocks = self.blocks@;
        self.blocks.push(BasicBlock { name: String::from_str(name), instrs: Vec::new() });
        proof {
            let bs = self.blocks@;
            assert forall|c: int, k: int|
                0 <= c < bs.len() && 0 <= k < bs[c].instrs@.len() implies instr_refs_ok(
                #[trigger] bs[c].instrs@[k],
                self.next_value as nat,
                bs.len(),
            ) by {
                assert(c < old_blocks.len());
                assert(bs[c] == old_blocks[c]);
                lemma_refs_mono(
                    bs[c].instrs@[k],
                    self.next_value as nat,
                    old_blocks.len(),
                    self.next_value as nat,
                    bs.len(),
                );
            }
            assert forall|k: int| #![trigger bs[k]] 0 <= k < old_blocks.len() implies bs[k].name@
                == old_blocks[k].name@ && old_blocks[k].instrs@.len() <= bs[k].instrs@.len()
                && bs[k].instrs@.subrange(0, old_blocks[k].instrs@.len() as int)
                == old_blocks[k].instrs@ by {
                assert(bs[k] == old_blocks[k]);
                assert(bs[k].instrs@.subrange(0, old_blocks[k].instrs@.len() as int)
                    =~= old_blocks[k].instrs@);
            }
            lemma_defs_in_grows(self.defs@, old_blocks, bs);
        }
        r
    }

    /// Sends the following instructions to the end of block `b`.
    pub fn position_at_end(&mut self, b: usize)
        requires
            old(self).wf(),
            b < old(self).blocks@.len(),
        ensures
            final(self).defs == old(self).defs,
            final(self).wf(),
            final(self).current == b,
            final(self).blocks == old(self).blocks,
            final(self).next_value == old(self).next_value,
            final(self).vars == old(self).vars,
    {
        self.current = b;
    }

    /// Whether the current block already ends in a terminator.
    pub fn is_terminated(&self) -> (r: bool)
        requires
            self.wf(),
        ensures
            r == (self.current_instrs().len() > 0 && is_terminator(self.current_instrs().last())),
    {
        let instrs = &self.blocks[self.current].instrs;
        if instrs.len() == 0 {
            false
        } else {
            match &instrs[instrs.len() - 1] {
                Instr::Br { .. } | Instr::CondBr { .. } | Instr::Ret { .. } => true,
                _ => false,
            }
        }
    }

    /// The variable `name` refers to: the one of the innermost scope that
    /// declares it.
    pub fn find_var(&self, name: &String) -> (r: Option<&VarSlot>)
        requires
            self.wf(),
        ensures
            r matches Some(s) ==> s.ptr < self.next_value && lowered_type(s.ty) is Some
                && var_type(self.scopes(), name@) == Some(s.ty) && var_slot(self.slots(), name@)
                == Some(*s),
            r is None ==> var_type(self.scopes(), name@) is None && var_slot(self.slots(), name@) is None,
    {
        let ghost sc = self.scopes();
        let ghost sl = self.slots();
        let mut i = self.vars.len();
        while i > 0
            invariant
                i <= self.vars@.len(),
                vars_ok(self.vars@, self.next_value as nat),
                sc == scope_model(self.vars@),
                sl == self.vars@.map_values(|t: NameTable<VarSlot>| t@),
                forall|j: int| i <= j < sc.len() ==> !(#[trigger] sc[j]).contains_key(name@),
                forall|j: int| i <= j < sl.len() ==> !(#[trigger] sl[j]).contains_key(name@),
            decreases i,
        {
            match self.vars[i - 1].get(name) {
                Some(slot) => {
                    proof {
                        let k = i - 1;
                        assert(self.vars@[k]@.dom().contains(name@));
                        assert(sc[k] == self.vars@[k]@.map_values(|s: VarSlot| s.ty));
                        assert(sl[k] == self.vars@[k]@);
                        lemma_innermost_prefix(sc, name@, i as int);
                        lemma_innermost_prefix(sl, name@, i as int);
                        assert(sc.subrange(0, i as int).last() == sc[k]);
                        assert(sl.subrange(0, i as int).last() == sl[k]);
                    }
                    return Some(slot);
                },
                None => {
                    proof {
                        let k = i - 1;
                        assert(sc[k] == self.vars@[k]@.map_values(|s: VarSlot| s.ty));
                        assert(sl[k] == self.vars@[k]@);
                        assert(!sc[k].contains_key(name@));
                        assert(!sl[k].contains_key(name@));
                    }
                },
            }
            i -= 1;
        }
        proof {
            lemma_innermost_prefix(sc, name@, 0);
            lemma_innermost_prefix(sl, name@, 0);
        }
        None
    }

    /// The variable `name` of the innermost scope, if it declares one.
    pub fn find_innermost(&self, name: &String) -> (r: Option<&VarSlot>)
        requires
            self.wf(),
            self.vars@.len() > 0,
        ensures
            r matches Some(s) ==> s.ptr < self.next_value && self.scopes().last().contains_key(
                name@,
            ) && self.slots().last().contains_key(name@) && *s == self.slots().last()[name@],
            r is None ==> !self.scopes().last().contains_key(name@),
    {
        let n = self.vars.len();
        let r = self.vars[n - 1].get(name);
        proof {
            assert(self.scopes().last() == self.vars@[n - 1]@.map_values(|s: VarSlot| s.ty));
            assert(self.slots().last() == self.vars@[n - 1]@);
            if r is Some {
                assert(self.vars@[n - 1]@.dom().contains(name@));
            }
        }
        r
    }

    /// Opens a scope of local variables.
    pub fn push_scope(&mut self)
        requires
            old(self).wf(),
        ensures
            final(self).defs == old(self).defs,
            final(self).wf(),
            final(self).vars@.len() == old(self).vars@.len() + 1,
            final(self).scopes() == old(self).scopes().push(Map::empty()),
            final(self).slots() == old(self).slots().push(Map::empty()),
            final(self).blocks == old(self).blocks,
            final(self).current == old(self).current,
            final(self).next_value == old(self).next_value,
    {
        let ghost old_vars = self.vars@;
        self.vars.push(NameTable::new());
        proof {
            let vs = self.vars@;
            assert forall|i: int, n: Seq<char>|
                0 <= i < vs.len() && #[trigger] vs[i]@.dom().contains(n) implies vs[i]@[n].ptr
                < self.next_value && lowered_type(vs[i]@[n].ty) is Some by {
                if i < old_vars.len() {
                    assert(vs[i] == old_vars[i]);
                }
            }
            assert(vs.last()@.map_values(|s: VarSlot| s.ty) =~= Map::<
                Seq<char>,
                ValueType,
            >::empty());
            assert(scope_model(vs) =~= scope_model(old_vars).push(Map::empty()));
            assert(self.slots() =~= old(self).slots().push(Map::empty()));
        }
    }

    /// Closes the innermost scope of local variables.
    pub fn pop_scope(&mut self)
        requires
            old(self).wf(),
        ensures
            final(self).defs == old(self).defs,
            final(self).wf(),
            final(self).vars@.len() == if old(self).vars@.len() > 0 {
                old(self).vars@.len() - 1
            } else {
                0
            },
            old(self).vars@.len() > 0 ==> final(self).scopes() == old(self).scopes().drop_last(),
            final(self).blocks == old(self).blocks,
            final(self).current == old(self).current,
            final(self).next_value == old(self).next_value,
    {
        let ghost old_vars = self.vars@;
        self.vars.pop();
        proof {
            let vs = self.vars@;
            assert forall|i: int, n: Seq<char>|
                0 <= i < vs.len() && #[trigger] vs[i]@.dom().contains(n) implies vs[i]@[n].ptr
                < self.next_value && lowered_type(vs[i]@[n].ty) is Some by {
                assert(vs[i] == old_vars[i]);
            }
            if old_vars.len() > 0 {
                assert(scope_model(vs) =~= scope_model(old_vars).drop_last());
            }
        }
    }

    /// Declares a variable living in `ptr` in the innermost scope.
    pub fn declare_var(&mut self, name: String, ptr: usize, ty: ValueType)
        requires
            old(self).wf(),
            old(self).vars@.len() > 0,
            ptr < old(self).next_value,
            lowered_type(ty) is Some,
        ensures
            final(self).defs == old(self).defs,
            final(self).wf(),
            final(self).vars@.len() == old(self).vars@.len(),
            final(self).scopes() == add_var(old(self).scopes(), name@, ty),
            final(self).slots().len() == old(self).slots().len(),
            final(self).slots().last() == old(self).slots().last().insert(name@, VarSlot { ptr, ty }),
            final(self).slots() == old(self).slots().drop_last().push(
                old(self).slots().last().insert(name@, VarSlot { ptr, ty }),
            ),
            final(self).blocks == old(self).blocks,
            final(self).current == old(self).current,
            final(self).next_value == old(self).next_value,
    {
        let ghost old_vars = self.vars@;
        let ghost nm = name@;
        let ghost t = ty;
        let mut top = self.vars.pop().unwrap();
        top.insert(name, VarSlot { ptr, ty });
        self.vars.push(top);
        proof {
            let vs = self.vars@;
            let last = vs.len() - 1;
            assert(vs.drop_last() =~= old_vars.drop_last());
            assert forall|i: int, n: Seq<char>|
                0 <= i < vs.len() && #[trigger] vs[i]@.dom().contains(n) implies vs[i]@[n].ptr
                < self.next_value && lowered_type(vs[i]@[n].ty) is Some by {
                if i < last {
                    assert(vs[i] == old_vars[i]);
                } else {
                    let o = old_vars[i];
                    if n != nm {
                        assert(o@.dom().contains(n));
                    }
                }
            }
            let om = scope_model(old_vars);
            assert(vs[last]@.map_values(|s: VarSlot| s.ty) =~= om.last().insert(nm, t));
            assert(scope_model(vs) =~= add_var(om, nm, t));
            assert(self.slots().last() == vs[last]@);
        }
    }
}

} // verus!
