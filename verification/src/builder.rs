use vstd::prelude::*;
use crate::token_type::{
    Block, BlockView, Diagnostic, DiagnosticView, Number, RawStandardKeyword, RawToken,
    RawTokenView, RefinedStandardKeyword, RefinedToken, RefinedTokenView, defs_view, diags_view,
    find_def, lemma_defs_replace, lemma_ops_view, ops_view, tokens_view, unique_names,
};

verus! {

/// Why a token sequence is not a program.
#[derive(Debug, Clone, Copy, PartialEq, Eq, Structural)]
pub enum ParseErr {
    /// `fndef` with no identifier pending in its block.
    MissingName,
    /// `fndef` with no nested block pending in its block.
    MissingBody,
    /// `fndef` whose pending identifier or block was recorded at a place
    /// that the operation list no longer has.
    MisplacedDefinition,
}

/// What building one block has gathered so far.
pub struct BuildState {
    /// The function table.
    pub defs: Map<Seq<char>, BlockView>,
    /// The operations put out so far.
    pub ops: Seq<RefinedTokenView>,
    /// The identifiers seen, each with the index at which its call was put out.
    pub names: Seq<(Seq<char>, int)>,
    /// The nested blocks seen, each with the index at which it was put out.
    pub blocks: Seq<(BlockView, int)>,
}

/// What building yields: the block or the error, the index of the first
/// token not consumed, and the diagnostics gathered.
pub struct Built {
    pub block: Result<BlockView, ParseErr>,
    pub next: int,
    pub diags: Seq<DiagnosticView>,
}

impl BuildState {
    /// The state in which a block begins.
    pub open spec fn empty() -> BuildState {
        BuildState { defs: Map::empty(), ops: Seq::empty(), names: Seq::empty(), blocks: Seq::empty() }
    }

    /// The block that the state amounts to when its input ends.
    pub open spec fn block(self) -> BlockView {
        BlockView { user_defs: self.defs, operations: self.ops }
    }

    /// The state after one operation that neither stack tracks.
    pub open spec fn with_op(self, op: RefinedTokenView) -> BuildState {
        BuildState { ops: self.ops.push(op), ..self }
    }

    /// The state after an identifier: a call is put out and remembered.
    pub open spec fn with_name(self, name: Seq<char>) -> BuildState {
        BuildState {
            ops: self.ops.push(RefinedTokenView::Call(name)),
            names: self.names.push((name, self.ops.len() as int)),
            ..self
        }
    }

    /// The state after a nested block: it is put out and remembered.
    pub open spec fn with_block(self, child: BlockView) -> BuildState {
        BuildState {
            ops: self.ops.push(RefinedTokenView::LooseBlock(child)),
            blocks: self.blocks.push((child, self.ops.len() as int)),
            ..self
        }
    }

    /// Whether `fndef` in this state names a function that the table has.
    pub open spec fn redefines(self) -> bool {
        self.names.len() > 0 && self.blocks.len() > 0 && self.defs.contains_key(self.names.last().0)
    }

    /// The state after `fndef`: the latest identifier and the latest block
    /// leave their stacks, the operations at their two recorded indices are
    /// taken out, the higher index first, and the table binds the name to
    /// the block.
    pub open spec fn define(self) -> Result<BuildState, ParseErr> {
        if self.names.len() == 0 {
            Err(ParseErr::MissingName)
        } else if self.blocks.len() == 0 {
            Err(ParseErr::MissingBody)
        } else {
            let (name, name_at) = self.names.last();
            let (body, body_at) = self.blocks.last();
            let first = if body_at > name_at { body_at } else { name_at };
            let second = if body_at > name_at { name_at } else { body_at };
            if 0 <= first < self.ops.len() && 0 <= second < self.ops.len() - 1 {
                Ok(
                    BuildState {
                        defs: self.defs.insert(name, body),
                        ops: self.ops.remove(first).remove(second),
                        names: self.names.drop_last(),
                        blocks: self.blocks.drop_last(),
                    },
                )
            } else {
                Err(ParseErr::MisplacedDefinition)
            }
        }
    }
}

/// The operation that a type annotation, a type cast, a number or a keyword
/// other than `fndef` becomes.
pub open spec fn plain_op(t: RawTokenView) -> RefinedTokenView {
    match t {
        RawTokenView::LangType(p) => RefinedTokenView::LangType(p),
        RawTokenView::LangTypeCast(p) => RefinedTokenView::LangTypeCast(p),
        RawTokenView::Number(n) => RefinedTokenView::Number(n),
        RawTokenView::Keyword(k) => match RefinedStandardKeyword::spec_from_raw(k) {
            Ok(w) => RefinedTokenView::Keyword(w),
            Err(_) => arbitrary(),
        },
        _ => arbitrary(),
    }
}

/// Building a block from the token at `pos` on, in state `st`, with the
/// diagnostics `diags` gathered before. The end of the tokens closes the
/// block as `}` does.
pub open spec fn build_from(
    tokens: Seq<RawTokenView>,
    pos: int,
    st: BuildState,
    diags: Seq<DiagnosticView>,
) -> Built
    decreases tokens.len() - pos,
{
    if pos < 0 || pos >= tokens.len() {
        Built { block: Ok(st.block()), next: pos, diags }
    } else {
        match tokens[pos] {
            RawTokenView::EndBlock => Built { block: Ok(st.block()), next: pos + 1, diags },
            RawTokenView::StartBlock => {
                let child = build_from(tokens, pos + 1, BuildState::empty(), diags);
                match child.block {
                    Ok(b) if pos < child.next <= tokens.len() => build_from(
                        tokens,
                        child.next,
                        st.with_block(b),
                        child.diags,
                    ),
                    _ => child,
                }
            },
            RawTokenView::UserDefinedToken(name) => build_from(
                tokens,
                pos + 1,
                st.with_name(name),
                diags,
            ),
            RawTokenView::Keyword(RawStandardKeyword::Fndef) => match st.define() {
                Err(e) => Built { block: Err(e), next: pos + 1, diags },
                Ok(st2) => build_from(
                    tokens,
                    pos + 1,
                    st2,
                    if st.redefines() {
                        diags.push(DiagnosticView::Redefinition(st.names.last().0))
                    } else {
                        diags
                    },
                ),
            },
            t => build_from(tokens, pos + 1, st.with_op(plain_op(t)), diags),
        }
    }
}

/// The pending identifiers that a working list stands for.
pub open spec fn names_view(s: Seq<(String, usize)>) -> Seq<(Seq<char>, int)> {
    Seq::new(s.len(), |i: int| (s[i].0@, s[i].1 as int))
}

/// The pending blocks that a working list stands for.
pub open spec fn blocks_view(s: Seq<(Block, usize)>) -> Seq<(BlockView, int)> {
    Seq::new(s.len(), |i: int| (s[i].0.view(), s[i].1 as int))
}

/// The state that the four working lists of the builder stand for.
pub open spec fn state_of(
    defs: Seq<(String, Block)>,
    ops: Seq<RefinedToken>,
    names: Seq<(String, usize)>,
    blocks: Seq<(Block, usize)>,
) -> BuildState {
    BuildState {
        defs: defs_view(defs),
        ops: ops_view(ops),
        names: names_view(names),
        blocks: blocks_view(blocks),
    }
}

proof fn lemma_ops_push(ops: Seq<RefinedToken>, op: RefinedToken)
    ensures
        ops_view(ops.push(op)) == ops_view(ops).push(op.view()),
{
    assert(ops.push(op).drop_last() =~= ops);
}

proof fn lemma_ops_remove(ops: Seq<RefinedToken>, i: int)
    requires
        0 <= i < ops.len(),
    ensures
        ops_view(ops.remove(i)) == ops_view(ops).remove(i),
{
    lemma_ops_view(ops);
    lemma_ops_view(ops.remove(i));
    assert(ops_view(ops.remove(i)) =~= ops_view(ops).remove(i));
}

/// A name, then a block, then `fndef`: the call and the nested block leave
/// the operations, both stacks are as before the name, and the table binds
/// the name to the block.
pub proof fn definition_takes_name_and_block(st: BuildState, name: Seq<char>, body: BlockView)
    ensures
        st.with_name(name).with_block(body).define() == Ok::<BuildState, ParseErr>(
            BuildState { defs: st.defs.insert(name, body), ..st },
        ),
{
    let grown = st.with_name(name).with_block(body);
    let at = st.ops.len() as int;
    assert(grown.names.last() == (name, at));
    assert(grown.blocks.last() == (body, at + 1));
    assert(grown.ops.remove(at + 1).remove(at) =~= st.ops);
    assert(grown.names.drop_last() =~= st.names);
    assert(grown.blocks.drop_last() =~= st.blocks);
}

/// Whether every block held in the working lists is well formed.
pub open spec fn lists_well_formed(
    defs: Seq<(String, Block)>,
    ops: Seq<RefinedToken>,
    blocks: Seq<(Block, usize)>,
) -> bool {
    &&& unique_names(defs)
    &&& forall|j: int| 0 <= j < defs.len() ==> (#[trigger] defs[j]).1.well_formed()
    &&& forall|j: int| 0 <= j < ops.len() ==> (#[trigger] ops[j]).well_formed()
    &&& forall|j: int| 0 <= j < blocks.len() ==> (#[trigger] blocks[j]).0.well_formed()
}

/// Carries out `fndef` on the working lists.
fn define(
    user_defs: &mut Vec<(String, Block)>,
    ops: &mut Vec<RefinedToken>,
    token_stack: &mut Vec<(String, usize)>,
    block_stack: &mut Vec<(Block, usize)>,
    diagnostics: &mut Vec<Diagnostic>,
) -> (r: Result<(), ParseErr>)
    requires
        lists_well_formed(old(user_defs)@, old(ops)@, old(block_stack)@),
    ensures
        ({
            let st = state_of(old(user_defs)@, old(ops)@, old(token_stack)@, old(block_stack)@);
            match r {
                Err(e) => {
                    &&& st.define() == Err::<BuildState, ParseErr>(e)
                    &&& final(diagnostics)@ == old(diagnostics)@
                },
                Ok(_) => {
                    &&& st.define() == Ok::<BuildState, ParseErr>(
                        state_of(
                            final(user_defs)@,
                            final(ops)@,
                            final(token_stack)@,
                            final(block_stack)@,
                        ),
                    )
                    &&& diags_view(final(diagnostics)@) == if st.redefines() {
                        diags_view(old(diagnostics)@).push(
                            DiagnosticView::Redefinition(st.names.last().0),
                        )
                    } else {
                        diags_view(old(diagnostics)@)
                    }
                },
            }
        }),
        lists_well_formed(final(user_defs)@, final(ops)@, final(block_stack)@),
{
    let ghost st = state_of(user_defs@, ops@, token_stack@, block_stack@);
    if token_stack.len() == 0 {
        return Err(ParseErr::MissingName);
    }
    if block_stack.len() == 0 {
        return Err(ParseErr::MissingBody);
    }
    let name_at = token_stack[token_stack.len() - 1].1;
    let body_at = block_stack[block_stack.len() - 1].1;
    let first = if body_at > name_at { body_at } else { name_at };
    let second = if body_at > name_at { name_at } else { body_at };
    proof {
        lemma_ops_view(ops@);
    }
    if !(first < ops.len() && second < ops.len() - 1) {
        return Err(ParseErr::MisplacedDefinition);
    }
    let named = token_stack.pop().unwrap();
    let bodied = block_stack.pop().unwrap();
    proof {
        assert(names_view(token_stack@) =~= st.names.drop_last());
        assert(blocks_view(block_stack@) =~= st.blocks.drop_last());
        lemma_ops_remove(ops@, first as int);
        lemma_ops_remove(ops@.remove(first as int), second as int);
    }
    ops.remove(first);
    ops.remove(second);
    match find_def(user_defs, &named.0) {
        Some(at) => {
            proof {
                assert(diags_view(diagnostics@.push(Diagnostic::Redefinition(named.0)))
                    =~= diags_view(diagnostics@).push(DiagnosticView::Redefinition(named.0@)));
                lemma_defs_replace(user_defs@, at as int, (named.0, bodied.0));
            }
            diagnostics.push(Diagnostic::Redefinition(named.0.clone()));
            user_defs.set(at, (named.0, bodied.0));
        },
        None => {
            proof {
                assert(user_defs@.push((named.0, bodied.0)).drop_last() =~= user_defs@);
            }
            user_defs.push((named.0, bodied.0));
        },
    }
    Ok(())
}

impl Block {
    /// Builds the block that starts at token `start` and ends with its
    /// closing `}` or with the tokens. Returns it, or the error that stopped
    /// the work, with the index of the first token not consumed. Each
    /// redefinition of a function is added to `diagnostics`.
    pub fn build_block(tokens: &Vec<RawToken>, start: usize, diagnostics: &mut Vec<Diagnostic>) -> (r: (
        Result<Block, ParseErr>,
        usize,
    ))
        requires
            start <= tokens.len(),
        ensures
            ({
                let b = build_from(
                    tokens_view(tokens@),
                    start as int,
                    BuildState::empty(),
                    diags_view(old(diagnostics)@),
                );
                &&& r.1 == b.next
                &&& start <= r.1 <= tokens.len()
                &&& start < tokens.len() ==> start < r.1
                &&& diags_view(final(diagnostics)@) == b.diags
                &&& match r.0 {
                    Ok(block) => b.block == Ok::<BlockView, ParseErr>(block.view()),
                    Err(e) => b.block == Err::<BlockView, ParseErr>(e),
                }
            }),
            r.0 matches Ok(block) ==> block.well_formed(),
        decreases tokens.len() - start,
    {
        let mut user_defs: Vec<(String, Block)> = Vec::new();
        let mut ops: Vec<RefinedToken> = Vec::new();
        let mut token_stack: Vec<(String, usize)> = Vec::new();
        let mut block_stack: Vec<(Block, usize)> = Vec::new();
        let mut pos: usize = start;
        let ghost toks = tokens_view(tokens@);
        let ghost before = diags_view(diagnostics@);
        let ghost goal = build_from(toks, start as int, BuildState::empty(), before);
        proof {
            assert(names_view(token_stack@) =~= Seq::empty());
            assert(blocks_view(block_stack@) =~= Seq::empty());
        }
        while pos < tokens.len()
            invariant
                start <= pos <= tokens.len(),
                toks == tokens_view(tokens@),
                before == diags_view(old(diagnostics)@),
                lists_well_formed(user_defs@, ops@, block_stack@),
                goal == build_from(toks, start as int, BuildState::empty(), before),
                goal == build_from(
                    toks,
                    pos as int,
                    state_of(user_defs@, ops@, token_stack@, block_stack@),
                    diags_view(diagnostics@),
                ),
            decreases tokens.len() - pos,
        {
            let ghost st = state_of(user_defs@, ops@, token_stack@, block_stack@);
            match &tokens[pos] {
                RawToken::StartBlock => {
                    let (child, next) = Block::build_block(tokens, pos + 1, diagnostics);
                    match child {
                        Err(e) => {
                            return (Err(e), next);
                        },
                        Ok(body) => {
                            let copy = body.duplicate();
                            proof {
                                lemma_ops_push(ops@, RefinedToken::LooseBlock(body));
                                assert(blocks_view(block_stack@.push((copy, ops.len())))
                                    =~= blocks_view(block_stack@).push(
                                    (body.view(), ops_view(ops@).len() as int),
                                )) by {
                                    lemma_ops_view(ops@);
                                }
                            }
                            block_stack.push((copy, ops.len()));
                            ops.push(RefinedToken::LooseBlock(body));
                            pos = next;
                        },
                    }
                },
                RawToken::EndBlock => {
                    return (Ok(Block { user_defs, operations: ops }), pos + 1);
                },
                RawToken::LangType(t) => {
                    proof {
                        lemma_ops_push(ops@, RefinedToken::LangType(*t));
                    }
                    ops.push(RefinedToken::LangType(*t));
                    pos += 1;
                },
                RawToken::LangTypeCast(t) => {
                    proof {
                        lemma_ops_push(ops@, RefinedToken::LangTypeCast(*t));
                    }
                    ops.push(RefinedToken::LangTypeCast(*t));
                    pos += 1;
                },
                RawToken::Number(n) => {
                    let op = RefinedToken::Number(n.duplicate());
                    proof {
                        lemma_ops_push(ops@, op);
                    }
                    ops.push(op);
                    pos += 1;
                },
                RawToken::Keyword(w) => {
                    match RefinedStandardKeyword::from_raw(*w) {
                        Ok(k) => {
                            proof {
                                lemma_ops_push(ops@, RefinedToken::Keyword(k));
                            }
                            ops.push(RefinedToken::Keyword(k));
                            pos += 1;
                        },
                        Err(_) => {
                            match define(
                                &mut user_defs,
                                &mut ops,
                                &mut token_stack,
                                &mut block_stack,
                                diagnostics,
                            ) {
                                Err(e) => {
                                    return (Err(e), pos + 1);
                                },
                                Ok(()) => {
                                    pos += 1;
                                },
                            }
                        },
                    }
                },
                RawToken::UserDefinedToken(t) => {
                    let name = t.clone();
                    let call = t.clone();
                    proof {
                        lemma_ops_push(ops@, RefinedToken::Call(call));
                        lemma_ops_view(ops@);
                        assert(names_view(token_stack@.push((name, ops.len())))
                            =~= names_view(token_stack@).push((t@, ops_view(ops@).len() as int)));
                    }
                    token_stack.push((name, ops.len()));
                    ops.push(RefinedToken::Call(call));
                    pos += 1;
                },
            }
        }
        (Ok(Block { user_defs, operations: ops }), pos)
    }

    /// Builds the block that a token sequence describes, from its first
    /// token to the first `}` that closes no nested block, or to the end.
    pub fn from_rawtoken_iter(tokens: &Vec<RawToken>, diagnostics: &mut Vec<Diagnostic>) -> (r:
        Result<Block, ParseErr>)
        ensures
            ({
                let b = build_from(
                    tokens_view(tokens@),
                    0,
                    BuildState::empty(),
                    diags_view(old(diagnostics)@),
                );
                &&& diags_view(final(diagnostics)@) == b.diags
                &&& match r {
                    Ok(block) => b.block == Ok::<BlockView, ParseErr>(block.view()),
                    Err(e) => b.block == Err::<BlockView, ParseErr>(e),
                }
            }),
            r matches Ok(block) ==> block.well_formed(),
    {
        Block::build_block(tokens, 0, diagnostics).0
    }
}

} // verus!
