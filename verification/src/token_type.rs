use vstd::prelude::*;

verus! {

/// The primitive types that a program text can name.
#[derive(Debug, Clone, Copy, PartialEq, Eq, Structural)]
pub enum PrimitiveType {
    Float32,
    Int32,
}

/// Every keyword that can occur in a program text.
#[derive(Debug, Clone, Copy, PartialEq, Eq, Structural)]
pub enum RawStandardKeyword {
    Fndef,
    Stdin,
    Stdout,
    Add,
    Mul,
    Sub,
    Div,
    Copy,
}

/// The keywords that remain as operations once definitions are resolved.
#[derive(Debug, Clone, Copy, PartialEq, Eq, Structural)]
pub enum RefinedStandardKeyword {
    Stdin,
    Stdout,
    Add,
    Mul,
    Sub,
    Div,
    Copy,
}

/// A number literal. A literal with a decimal point is kept as its text
/// (sign, digits, point, digits); its numerical value is for the embedding
/// program to compute.
#[derive(Debug, Clone, PartialEq, Eq)]
pub enum Number {
    Integer(isize),
    Decimal(String),
}

/// The content of a number literal.
pub enum NumberView {
    Integer(isize),
    Decimal(Seq<char>),
}

impl View for Number {
    type V = NumberView;

    open spec fn view(&self) -> NumberView {
        match self {
            Number::Integer(n) => NumberView::Integer(*n),
            Number::Decimal(t) => NumberView::Decimal(t@),
        }
    }
}

/// One classified token of the program text.
#[derive(Debug, Clone, PartialEq, Eq)]
pub enum RawToken {
    StartBlock,
    EndBlock,
    LangType(PrimitiveType),
    LangTypeCast(PrimitiveType),
    Number(Number),
    Keyword(RawStandardKeyword),
    UserDefinedToken(String),
}

/// The content of a token.
pub enum RawTokenView {
    StartBlock,
    EndBlock,
    LangType(PrimitiveType),
    LangTypeCast(PrimitiveType),
    Number(NumberView),
    Keyword(RawStandardKeyword),
    UserDefinedToken(Seq<char>),
}

impl View for RawToken {
    type V = RawTokenView;

    open spec fn view(&self) -> RawTokenView {
        match self {
            RawToken::StartBlock => RawTokenView::StartBlock,
            RawToken::EndBlock => RawTokenView::EndBlock,
            RawToken::LangType(t) => RawTokenView::LangType(*t),
            RawToken::LangTypeCast(t) => RawTokenView::LangTypeCast(*t),
            RawToken::Number(n) => RawTokenView::Number(n@),
            RawToken::Keyword(k) => RawTokenView::Keyword(*k),
            RawToken::UserDefinedToken(s) => RawTokenView::UserDefinedToken(s@),
        }
    }
}

/// One operation of a block.
#[derive(Debug, PartialEq, Eq)]
pub enum RefinedToken {
    LangType(PrimitiveType),
    LangTypeCast(PrimitiveType),
    Number(Number),
    Keyword(RefinedStandardKeyword),
    Call(String),
    LooseBlock(Block),
}

/// A parsed block: its own function table and its operations in order.
#[derive(Debug, PartialEq, Eq)]
pub struct Block {
    pub user_defs: Vec<(String, Block)>,
    pub operations: Vec<RefinedToken>,
}

/// The content of an operation.
pub enum RefinedTokenView {
    LangType(PrimitiveType),
    LangTypeCast(PrimitiveType),
    Number(NumberView),
    Keyword(RefinedStandardKeyword),
    Call(Seq<char>),
    LooseBlock(BlockView),
}

/// The content of a block: its function table as a map from names, and
/// its operations.
pub struct BlockView {
    pub user_defs: Map<Seq<char>, BlockView>,
    pub operations: Seq<RefinedTokenView>,
}

impl RefinedToken {
    /// The content of the operation.
    pub open spec fn view(&self) -> RefinedTokenView
        decreases self,
    {
        match self {
            RefinedToken::LangType(t) => RefinedTokenView::LangType(*t),
            RefinedToken::LangTypeCast(t) => RefinedTokenView::LangTypeCast(*t),
            RefinedToken::Number(n) => RefinedTokenView::Number(n@),
            RefinedToken::Keyword(k) => RefinedTokenView::Keyword(*k),
            RefinedToken::Call(s) => RefinedTokenView::Call(s@),
            RefinedToken::LooseBlock(b) => RefinedTokenView::LooseBlock(b.view()),
        }
    }
}

impl Block {
    /// The content of the block.
    pub open spec fn view(&self) -> BlockView
        decreases self,
    {
        BlockView {
            user_defs: defs_view(self.user_defs@),
            operations: ops_view(self.operations@),
        }
    }
}

/// The function table that a list of definitions stands for: a later entry
/// of a name replaces an earlier one.
pub open spec fn defs_view(defs: Seq<(String, Block)>) -> Map<Seq<char>, BlockView>
    decreases defs,
{
    if defs.len() == 0 {
        Map::empty()
    } else {
        defs_view(defs.drop_last()).insert(defs.last().0@, defs.last().1.view())
    }
}

/// The contents of a list of operations.
pub open spec fn ops_view(ops: Seq<RefinedToken>) -> Seq<RefinedTokenView>
    decreases ops,
{
    if ops.len() == 0 {
        Seq::empty()
    } else {
        ops_view(ops.drop_last()).push(ops.last().view())
    }
}

/// What the index-wise reading of an operation list is.
pub proof fn lemma_ops_view(ops: Seq<RefinedToken>)
    ensures
        ops_view(ops).len() == ops.len(),
        forall|i: int| 0 <= i < ops.len() ==> (#[trigger] ops_view(ops)[i]) == ops[i].view(),
    decreases ops.len(),
{
    if ops.len() > 0 {
        lemma_ops_view(ops.drop_last());
    }
}

/// A name that no later definition repeats is bound to its own block.
pub proof fn lemma_defs_found(defs: Seq<(String, Block)>, name: Seq<char>, i: int)
    requires
        0 <= i < defs.len(),
        defs[i].0@ == name,
        forall|j: int| i < j < defs.len() ==> (#[trigger] defs[j]).0@ != name,
    ensures
        defs_view(defs).contains_key(name),
        defs_view(defs)[name] == defs[i].1.view(),
    decreases defs.len(),
{
    if i < defs.len() - 1 {
        lemma_defs_found(defs.drop_last(), name, i);
    }
}

/// A name that no definition carries is not in the table.
pub proof fn lemma_defs_absent(defs: Seq<(String, Block)>, name: Seq<char>)
    requires
        forall|j: int| 0 <= j < defs.len() ==> (#[trigger] defs[j]).0@ != name,
    ensures
        !defs_view(defs).contains_key(name),
    decreases defs.len(),
{
    if defs.len() > 0 {
        lemma_defs_absent(defs.drop_last(), name);
    }
}

/// Putting a definition in the place of the last one of its name binds the
/// name to the new block and leaves the other names as they were.
pub proof fn lemma_defs_replace(defs: Seq<(String, Block)>, i: int, entry: (String, Block))
    requires
        0 <= i < defs.len(),
        defs[i].0@ == entry.0@,
        forall|j: int| i < j < defs.len() ==> (#[trigger] defs[j]).0@ != entry.0@,
    ensures
        defs_view(defs.update(i, entry)) == defs_view(defs).insert(entry.0@, entry.1.view()),
    decreases defs.len(),
{
    let after = defs.update(i, entry);
    if i == defs.len() - 1 {
        assert(after.drop_last() =~= defs.drop_last());
        assert(defs_view(after) =~= defs_view(defs).insert(entry.0@, entry.1.view()));
    } else {
        lemma_defs_replace(defs.drop_last(), i, entry);
        assert(after.drop_last() =~= defs.drop_last().update(i, entry));
        assert(after.last() == defs.last());
        assert(defs_view(after) =~= defs_view(defs).insert(entry.0@, entry.1.view()));
    }
}

/// No two definitions of the list carry the same name.
pub open spec fn unique_names(defs: Seq<(String, Block)>) -> bool {
    forall|i: int, j: int|
        0 <= i < j < defs.len() ==> (#[trigger] defs[i]).0@ != (#[trigger] defs[j]).0@
}

impl Block {
    /// The block's table holds each name once, and so does the table of
    /// every block inside it.
    pub open spec fn well_formed(&self) -> bool
        decreases self,
    {
        &&& unique_names(self.user_defs@)
        &&& forall|i: int|
            0 <= i < self.user_defs@.len() ==> (#[trigger] self.user_defs@[i]).1.well_formed()
        &&& forall|i: int|
            0 <= i < self.operations@.len() ==> (#[trigger] self.operations@[i]).well_formed()
    }
}

impl RefinedToken {
    /// A nested block is well formed; any other operation is.
    pub open spec fn well_formed(&self) -> bool
        decreases self,
    {
        match self {
            RefinedToken::LooseBlock(b) => b.well_formed(),
            _ => true,
        }
    }
}

/// The place of the definition that binds `name`: the last one that carries
/// it.
pub fn find_def(defs: &Vec<(String, Block)>, name: &String) -> (r: Option<usize>)
    ensures
        r is Some <==> defs_view(defs@).contains_key(name@),
        r matches Some(i) ==> {
            &&& i < defs.len()
            &&& defs@[i as int].0@ == name@
            &&& defs_view(defs@)[name@] == defs@[i as int].1.view()
            &&& forall|j: int| i < j < defs.len() ==> (#[trigger] defs@[j]).0@ != name@
        },
        r is None ==> forall|j: int| 0 <= j < defs.len() ==> (#[trigger] defs@[j]).0@ != name@,
{
    let mut i: usize = defs.len();
    while i > 0
        invariant
            i <= defs.len(),
            forall|j: int| i <= j < defs.len() ==> (#[trigger] defs@[j]).0@ != name@,
        decreases i,
    {
        i -= 1;
        if defs[i].0 == *name {
            proof {
                lemma_defs_found(defs@, name@, i as int);
            }
            return Some(i);
        }
    }
    proof {
        lemma_defs_absent(defs@, name@);
    }
    None
}

/// A remark that classifying or building leaves for the caller; none of them
/// stops the work.
#[derive(Debug, Clone, PartialEq, Eq)]
pub enum Diagnostic {
    /// A token in square brackets whose inside names no type.
    UnknownType(String),
    /// A token in round brackets whose inside names no type.
    UnknownTypeCast(String),
    /// A function name that was defined before in the same block.
    Redefinition(String),
}

/// The content of a remark.
pub enum DiagnosticView {
    UnknownType(Seq<char>),
    UnknownTypeCast(Seq<char>),
    Redefinition(Seq<char>),
}

impl View for Diagnostic {
    type V = DiagnosticView;

    open spec fn view(&self) -> DiagnosticView {
        match self {
            Diagnostic::UnknownType(s) => DiagnosticView::UnknownType(s@),
            Diagnostic::UnknownTypeCast(s) => DiagnosticView::UnknownTypeCast(s@),
            Diagnostic::Redefinition(s) => DiagnosticView::Redefinition(s@),
        }
    }
}

/// The contents of a list of remarks.
pub open spec fn diags_view(d: Seq<Diagnostic>) -> Seq<DiagnosticView> {
    Seq::new(d.len(), |i: int| d[i]@)
}

/// The contents of a list of tokens.
pub open spec fn tokens_view(t: Seq<RawToken>) -> Seq<RawTokenView> {
    Seq::new(t.len(), |i: int| t[i]@)
}

impl RefinedStandardKeyword {
    /// The operation keyword that a raw keyword stands for; `fndef` is none.
    pub open spec fn spec_from_raw(kw: RawStandardKeyword) -> Result<RefinedStandardKeyword, ()> {
        match kw {
            RawStandardKeyword::Stdin => Ok(RefinedStandardKeyword::Stdin),
            RawStandardKeyword::Stdout => Ok(RefinedStandardKeyword::Stdout),
            RawStandardKeyword::Add => Ok(RefinedStandardKeyword::Add),
            RawStandardKeyword::Mul => Ok(RefinedStandardKeyword::Mul),
            RawStandardKeyword::Sub => Ok(RefinedStandardKeyword::Sub),
            RawStandardKeyword::Div => Ok(RefinedStandardKeyword::Div),
            RawStandardKeyword::Copy => Ok(RefinedStandardKeyword::Copy),
            RawStandardKeyword::Fndef => Err(()),
        }
    }

    /// The operation keyword that a raw keyword stands for; `fndef`, which
    /// is no operation, gives the error.
    pub fn from_raw(kw: RawStandardKeyword) -> (r: Result<RefinedStandardKeyword, ()>)
        ensures
            r == Self::spec_from_raw(kw),
            r is Err <==> kw == RawStandardKeyword::Fndef,
    {
        match kw {
            RawStandardKeyword::Stdin => Ok(RefinedStandardKeyword::Stdin),
            RawStandardKeyword::Stdout => Ok(RefinedStandardKeyword::Stdout),
            RawStandardKeyword::Add => Ok(RefinedStandardKeyword::Add),
            RawStandardKeyword::Mul => Ok(RefinedStandardKeyword::Mul),
            RawStandardKeyword::Sub => Ok(RefinedStandardKeyword::Sub),
            RawStandardKeyword::Div => Ok(RefinedStandardKeyword::Div),
            RawStandardKeyword::Copy => Ok(RefinedStandardKeyword::Copy),
            RawStandardKeyword::Fndef => Err(()),
        }
    }
}

impl Number {
    /// A second number with the same content.
    pub fn duplicate(&self) -> (r: Number)
        ensures
            r@ == self@,
    {
        match self {
            Number::Integer(n) => Number::Integer(*n),
            Number::Decimal(t) => Number::Decimal(t.clone()),
        }
    }
}

impl RefinedToken {
    /// A second operation with the same content, nested blocks included.
    pub fn duplicate(&self) -> (r: RefinedToken)
        ensures
            r.view() == self.view(),
            self.well_formed() ==> r.well_formed(),
        decreases self,
    {
        match self {
            RefinedToken::LangType(t) => RefinedToken::LangType(*t),
            RefinedToken::LangTypeCast(t) => RefinedToken::LangTypeCast(*t),
            RefinedToken::Number(n) => RefinedToken::Number(n.duplicate()),
            RefinedToken::Keyword(k) => RefinedToken::Keyword(*k),
            RefinedToken::Call(s) => RefinedToken::Call(s.clone()),
            RefinedToken::LooseBlock(b) => RefinedToken::LooseBlock(b.duplicate()),
        }
    }
}

impl Block {
    /// The block without definitions and without operations.
    pub fn empty() -> (r: Block)
        ensures
            r.view().user_defs == Map::<Seq<char>, BlockView>::empty(),
            r.view().operations == Seq::<RefinedTokenView>::empty(),
            r.well_formed(),
    {
        Block { user_defs: Vec::new(), operations: Vec::new() }
    }

    /// A second block with the same content, all blocks inside it included.
    pub fn duplicate(&self) -> (r: Block)
        ensures
            r.view() == self.view(),
            self.well_formed() ==> r.well_formed(),
        decreases self,
    {
        let mut defs: Vec<(String, Block)> = Vec::new();
        let mut i: usize = 0;
        while i < self.user_defs.len()
            invariant
                i <= self.user_defs.len(),
                defs@.len() == i,
                forall|j: int| 0 <= j < i ==> (#[trigger] defs@[j]).0@ == self.user_defs@[j].0@,
                self.well_formed() ==> forall|j: int|
                    0 <= j < i ==> (#[trigger] defs@[j]).1.well_formed(),
                defs_view(defs@) == defs_view(self.user_defs@.take(i as int)),
            decreases self.user_defs.len() - i,
        {
            let name = self.user_defs[i].0.clone();
            let body = self.user_defs[i].1.duplicate();
            proof {
                let before = self.user_defs@.take(i as int);
                let after = self.user_defs@.take(i + 1);
                assert(after.drop_last() =~= before);
                assert(defs@.push((name, body)).drop_last() =~= defs@);
            }
            defs.push((name, body));
            i += 1;
        }
        let mut ops: Vec<RefinedToken> = Vec::new();
        let mut k: usize = 0;
        while k < self.operations.len()
            invariant
                k <= self.operations.len(),
                ops@.len() == k,
                self.well_formed() ==> forall|j: int|
                    0 <= j < k ==> (#[trigger] ops@[j]).well_formed(),
                ops_view(ops@) == ops_view(self.operations@.take(k as int)),
            decreases self.operations.len() - k,
        {
            let op = self.operations[k].duplicate();
            proof {
                let before = self.operations@.take(k as int);
                let after = self.operations@.take(k + 1);
                assert(after.drop_last() =~= before);
                assert(ops@.push(op).drop_last() =~= ops@);
            }
            ops.push(op);
            k += 1;
        }
        proof {
            assert(self.user_defs@.take(self.user_defs.len() as int) =~= self.user_defs@);
            assert(self.operations@.take(self.operations.len() as int) =~= self.operations@);
        }
        Block { user_defs: defs, operations: ops }
    }
}

} // verus!
