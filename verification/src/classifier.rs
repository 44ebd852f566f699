use vstd::prelude::*;
use vstd::string::StringExecFns;
use crate::pattern::{group_text, is_match, pattern_group, pattern_matches, texts_view};
use crate::token_type::{
    Diagnostic, DiagnosticView, Number, NumberView, PrimitiveType, RawStandardKeyword, RawToken,
    RawTokenView, diags_view, tokens_view,
};

verus! {

/// Why a text is no token.
#[derive(Debug, Clone, Copy, PartialEq, Eq, Structural)]
pub enum ClassifyErr {
    /// One of the classifier's patterns was turned down.
    BadPattern,
    /// A number without a decimal point that is no integer of the machine's
    /// word.
    BadInteger,
}

/// Whether two texts are the same.
pub fn same_text(a: &str, b: &str) -> (r: bool)
    ensures
        r == (a@ == b@),
{
    let x = a.to_owned();
    let y = b.to_owned();
    x == y
}

/// Whether `c` occurs in `text`.
pub fn has_char(text: &str, c: char) -> (r: bool)
    ensures
        r == text@.contains(c),
{
    let n = text.unicode_len();
    let mut i: usize = 0;
    while i < n
        invariant
            i <= n,
            n == text@.len(),
            forall|j: int| 0 <= j < i ==> text@[j] != c,
        decreases n - i,
    {
        if text.get_char(i) == c {
            return true;
        }
        i += 1;
    }
    false
}

/// The value of a decimal digit.
pub open spec fn digit_value(c: char) -> Option<int> {
    if c == '0' {
        Some(0)
    } else if c == '1' {
        Some(1)
    } else if c == '2' {
        Some(2)
    } else if c == '3' {
        Some(3)
    } else if c == '4' {
        Some(4)
    } else if c == '5' {
        Some(5)
    } else if c == '6' {
        Some(6)
    } else if c == '7' {
        Some(7)
    } else if c == '8' {
        Some(8)
    } else if c == '9' {
        Some(9)
    } else {
        None
    }
}

/// Whether every character of the text is a decimal digit.
pub open spec fn all_digits(s: Seq<char>) -> bool {
    forall|i: int| 0 <= i < s.len() ==> digit_value(#[trigger] s[i]) is Some
}

/// The number that a run of decimal digits writes.
pub open spec fn digits_value(s: Seq<char>) -> int
    decreases s.len(),
{
    if s.len() == 0 {
        0
    } else {
        digits_value(s.drop_last()) * 10 + match digit_value(s.last()) {
            Some(d) => d,
            None => 0,
        }
    }
}

/// The integer that a text writes: one or more decimal digits, after an
/// optional minus sign.
pub open spec fn integer_of_text(s: Seq<char>) -> Option<int> {
    if s.len() > 0 && s[0] == '-' {
        if s.len() > 1 && all_digits(s.skip(1)) {
            Some(-digits_value(s.skip(1)))
        } else {
            None
        }
    } else if s.len() > 0 && all_digits(s) {
        Some(digits_value(s))
    } else {
        None
    }
}

/// The integer that a text writes, where the machine's word holds it.
pub open spec fn word_of_text(s: Seq<char>) -> Option<isize> {
    match integer_of_text(s) {
        Some(v) if isize::MIN <= v <= isize::MAX => Some(v as isize),
        _ => None,
    }
}

fn digit_of(c: char) -> (r: Option<isize>)
    ensures
        match r {
            Some(d) => digit_value(c) == Some(d as int),
            None => digit_value(c) is None,
        },
{
    if c == '0' {
        Some(0)
    } else if c == '1' {
        Some(1)
    } else if c == '2' {
        Some(2)
    } else if c == '3' {
        Some(3)
    } else if c == '4' {
        Some(4)
    } else if c == '5' {
        Some(5)
    } else if c == '6' {
        Some(6)
    } else if c == '7' {
        Some(7)
    } else if c == '8' {
        Some(8)
    } else if c == '9' {
        Some(9)
    } else {
        None
    }
}

/// Reads a decimal integer: `None` where the text writes none, or one that
/// the machine's word does not hold.
pub fn parse_integer(text: &str) -> (r: Option<isize>)
    ensures
        r == word_of_text(text@),
{
    let n = text.unicode_len();
    if n == 0 {
        return None;
    }
    let negative = text.get_char(0) == '-';
    let first: usize = if negative { 1 } else { 0 };
    if first >= n {
        return None;
    }
    let ghost digits = text@.skip(first as int);
    proof {
        assert(text@.skip(0) =~= text@);
        assert(digits.take(0) =~= Seq::<char>::empty());
    }
    let mut acc: isize = 0;
    let mut overflow = false;
    let mut i: usize = first;
    while i < n
        invariant
            first <= i <= n,
            first < n,
            n == text@.len(),
            negative == (text@[0] == '-'),
            first == if negative { 1usize } else { 0usize },
            digits == text@.skip(first as int),
            forall|j: int| 0 <= j < i - first ==> digit_value(#[trigger] digits[j]) is Some,
            !overflow ==> acc == -digits_value(digits.take(i - first)),
            overflow ==> digits_value(digits.take(i - first)) > -(isize::MIN as int),
            digits_value(digits.take(i - first)) >= 0,
        decreases n - i,
    {
        let c = text.get_char(i);
        assert(c == digits[i - first]);
        match digit_of(c) {
            None => {
                proof {
                    assert(text@.skip(0) =~= text@);
                    assert(digit_value(digits[i - first]) is None);
                    assert(!all_digits(digits));
                }
                return None;
            },
            Some(d) => {
                proof {
                    assert(digits.take(i + 1 - first).drop_last() =~= digits.take(i - first));
                    assert(digits.take(i + 1 - first).last() == c);
                }
                if !overflow {
                    match acc.checked_mul(10) {
                        None => {
                            overflow = true;
                        },
                        Some(m) => match m.checked_sub(d) {
                            None => {
                                overflow = true;
                            },
                            Some(v) => {
                                acc = v;
                            },
                        },
                    }
                }
            },
        }
        i += 1;
    }
    proof {
        assert(text@.skip(0) =~= text@);
        assert(digits.take(n - first) =~= digits);
        assert(all_digits(digits));
    }
    if overflow {
        None
    } else if negative {
        Some(acc)
    } else if acc == isize::MIN {
        None
    } else {
        Some(-acc)
    }
}

/// The primitive type that a name stands for.
pub open spec fn primitive_of(name: Seq<char>) -> Option<PrimitiveType> {
    if name == "f32"@ {
        Some(PrimitiveType::Float32)
    } else if name == "i32"@ {
        Some(PrimitiveType::Int32)
    } else {
        None
    }
}

/// The keyword that a text is.
pub open spec fn keyword_of(text: Seq<char>) -> Option<RawStandardKeyword> {
    if text == "fndef"@ {
        Some(RawStandardKeyword::Fndef)
    } else if text == "stdin"@ {
        Some(RawStandardKeyword::Stdin)
    } else if text == "stdout"@ {
        Some(RawStandardKeyword::Stdout)
    } else if text == "+"@ {
        Some(RawStandardKeyword::Add)
    } else if text == "*"@ {
        Some(RawStandardKeyword::Mul)
    } else if text == "-"@ {
        Some(RawStandardKeyword::Sub)
    } else if text == "/"@ {
        Some(RawStandardKeyword::Div)
    } else if text == "#"@ {
        Some(RawStandardKeyword::Copy)
    } else {
        None
    }
}

impl PrimitiveType {
    /// The primitive type that `string` names: `f32` or `i32`.
    pub fn from_str(string: &str) -> (r: Option<PrimitiveType>)
        ensures
            r == primitive_of(string@),
    {
        if same_text(string, "f32") {
            Some(PrimitiveType::Float32)
        } else if same_text(string, "i32") {
            Some(PrimitiveType::Int32)
        } else {
            None
        }
    }
}

impl RawStandardKeyword {
    /// The keyword that `string` is, if it is one.
    pub fn from_str(string: &str) -> (r: Option<RawStandardKeyword>)
        ensures
            r == keyword_of(string@),
    {
        if same_text(string, "fndef") {
            Some(RawStandardKeyword::Fndef)
        } else if same_text(string, "stdin") {
            Some(RawStandardKeyword::Stdin)
        } else if same_text(string, "stdout") {
            Some(RawStandardKeyword::Stdout)
        } else if same_text(string, "+") {
            Some(RawStandardKeyword::Add)
        } else if same_text(string, "*") {
            Some(RawStandardKeyword::Mul)
        } else if same_text(string, "-") {
            Some(RawStandardKeyword::Sub)
        } else if same_text(string, "/") {
            Some(RawStandardKeyword::Div)
        } else if same_text(string, "#") {
            Some(RawStandardKeyword::Copy)
        } else {
            None
        }
    }
}

/// A token, or the reason why there is none, with the remarks made on the
/// way.
pub struct Classified {
    pub token: Result<RawTokenView, ClassifyErr>,
    pub remarks: Seq<DiagnosticView>,
}

/// The token that a text is, given what the three patterns found in it:
/// the inside of its square brackets, the inside of its round brackets, and
/// whether it has the shape of a number. The first rule that applies
/// decides: a brace; a bracketed type name; a parenthesised type name; a
/// number, decimal where it has a point; a keyword; else an identifier.
/// Brackets round anything but a type name leave a remark.
pub open spec fn token_for(
    text: Seq<char>,
    bracket_name: Option<Seq<char>>,
    paren_name: Option<Seq<char>>,
    numeric: bool,
) -> Classified {
    if text == "{"@ {
        Classified { token: Ok(RawTokenView::StartBlock), remarks: Seq::empty() }
    } else if text == "}"@ {
        Classified { token: Ok(RawTokenView::EndBlock), remarks: Seq::empty() }
    } else if bracket_name is Some && primitive_of(bracket_name->0) is Some {
        Classified {
            token: Ok(RawTokenView::LangType(primitive_of(bracket_name->0)->0)),
            remarks: Seq::empty(),
        }
    } else {
        let first: Seq<DiagnosticView> = if bracket_name is Some {
            seq![DiagnosticView::UnknownType(text)]
        } else {
            Seq::empty()
        };
        if paren_name is Some && primitive_of(paren_name->0) is Some {
            Classified {
                token: Ok(RawTokenView::LangTypeCast(primitive_of(paren_name->0)->0)),
                remarks: first,
            }
        } else {
            let remarks = if paren_name is Some {
                first.push(DiagnosticView::UnknownTypeCast(text))
            } else {
                first
            };
            let token = if numeric {
                if text.contains('.') {
                    Ok(RawTokenView::Number(NumberView::Decimal(text)))
                } else {
                    match word_of_text(text) {
                        Some(v) => Ok(RawTokenView::Number(NumberView::Integer(v))),
                        None => Err(ClassifyErr::BadInteger),
                    }
                }
            } else {
                match keyword_of(text) {
                    Some(k) => Ok(RawTokenView::Keyword(k)),
                    None => Ok(RawTokenView::UserDefinedToken(text)),
                }
            };
            Classified { token, remarks }
        }
    }
}

/// The content of a name that may be absent.
pub open spec fn name_view(name: Option<&str>) -> Option<Seq<char>> {
    match name {
        Some(s) => Some(s@),
        None => None,
    }
}

/// Text in square brackets, with the inside as group 1.
pub open spec fn type_pattern() -> Seq<char> {
    "^\\[(.*)\\]$"@
}

/// Text in round brackets, with the inside as group 1.
pub open spec fn cast_pattern() -> Seq<char> {
    "^\\((.*)\\)$"@
}

/// An optional minus sign, digits, and optionally a point and more digits.
pub open spec fn number_pattern() -> Seq<char> {
    "^-?[0-9]+(\\.[0-9]+)?$"@
}

/// The token that a text is, by what the patterns find in it; `None` where
/// a pattern was turned down.
pub open spec fn classified(text: Seq<char>) -> Option<Classified> {
    match (
        pattern_group(type_pattern(), 1, text),
        pattern_group(cast_pattern(), 1, text),
        pattern_matches(number_pattern(), text),
    ) {
        (Some(t), Some(c), Some(n)) => Some(token_for(text, t, c, n)),
        _ => None,
    }
}

/// The tokens of a list of texts, or the reason why one of them is none,
/// with the remarks made on the way.
pub struct ClassifiedAll {
    pub tokens: Result<Seq<RawTokenView>, ClassifyErr>,
    pub remarks: Seq<DiagnosticView>,
}

/// The tokens of `texts` from the one at `at` on, after `done`, with the
/// remarks made so far. The first text that is no token ends the work.
pub open spec fn classify_from(
    texts: Seq<Seq<char>>,
    at: int,
    done: Seq<RawTokenView>,
    remarks: Seq<DiagnosticView>,
) -> ClassifiedAll
    decreases texts.len() - at,
{
    if at < 0 || at >= texts.len() {
        ClassifiedAll { tokens: Ok(done), remarks }
    } else {
        match classified(texts[at]) {
            None => ClassifiedAll { tokens: Err(ClassifyErr::BadPattern), remarks },
            Some(c) => match c.token {
                Err(e) => ClassifiedAll { tokens: Err(e), remarks: remarks + c.remarks },
                Ok(t) => classify_from(texts, at + 1, done.push(t), remarks + c.remarks),
            },
        }
    }
}

proof fn lemma_diag_push(d: Seq<Diagnostic>, x: Diagnostic)
    ensures
        diags_view(d.push(x)) == diags_view(d).push(x@),
{
    assert(diags_view(d.push(x)) =~= diags_view(d).push(x@));
}

impl RawToken {
    /// Decides what token `string` is from what the patterns found in it:
    /// `bracket_name` is the inside of its square brackets, `paren_name` the
    /// inside of its round brackets, and `numeric` says whether it has the
    /// shape of a number. Remarks are appended to `diagnostics`.
    pub fn classify(
        string: &str,
        bracket_name: Option<&str>,
        paren_name: Option<&str>,
        numeric: bool,
        diagnostics: &mut Vec<Diagnostic>,
    ) -> (r: Result<RawToken, ClassifyErr>)
        ensures
            ({
                let c = token_for(string@, name_view(bracket_name), name_view(paren_name), numeric);
                &&& diags_view(final(diagnostics)@) == diags_view(old(diagnostics)@) + c.remarks
                &&& match r {
                    Ok(t) => c.token == Ok::<RawTokenView, ClassifyErr>(t@),
                    Err(e) => c.token == Err::<RawTokenView, ClassifyErr>(e),
                }
            }),
    {
        let ghost before = diags_view(diagnostics@);
        proof {
            assert(before + Seq::<DiagnosticView>::empty() =~= before);
        }
        if same_text(string, "{") {
            return Ok(RawToken::StartBlock);
        }
        if same_text(string, "}") {
            return Ok(RawToken::EndBlock);
        }
        if let Some(inner) = bracket_name {
            if let Some(ptype) = PrimitiveType::from_str(inner) {
                return Ok(RawToken::LangType(ptype));
            }
            let remark = Diagnostic::UnknownType(string.to_owned());
            proof {
                lemma_diag_push(diagnostics@, remark);
                assert(before + seq![DiagnosticView::UnknownType(string@)] =~= before.push(
                    DiagnosticView::UnknownType(string@),
                ));
            }
            diagnostics.push(remark);
        }
        let ghost middle = diags_view(diagnostics@);
        if let Some(inner) = paren_name {
            if let Some(ptype) = PrimitiveType::from_str(inner) {
                return Ok(RawToken::LangTypeCast(ptype));
            }
            let remark = Diagnostic::UnknownTypeCast(string.to_owned());
            proof {
                lemma_diag_push(diagnostics@, remark);
                let first = if bracket_name is Some {
                    seq![DiagnosticView::UnknownType(string@)]
                } else {
                    Seq::empty()
                };
                assert(before + first.push(DiagnosticView::UnknownTypeCast(string@))
                    =~= middle.push(DiagnosticView::UnknownTypeCast(string@)));
            }
            diagnostics.push(remark);
        }
        if numeric {
            if has_char(string, '.') {
                Ok(RawToken::Number(Number::Decimal(string.to_owned())))
            } else {
                match parse_integer(string) {
                    Some(v) => Ok(RawToken::Number(Number::Integer(v))),
                    None => Err(ClassifyErr::BadInteger),
                }
            }
        } else {
            match RawStandardKeyword::from_str(string) {
                Some(keyword) => Ok(RawToken::Keyword(keyword)),
                None => Ok(RawToken::UserDefinedToken(string.to_owned())),
            }
        }
    }

    /// The token that `string` is. Remarks are appended to `diagnostics`.
    pub fn from_str(string: &str, diagnostics: &mut Vec<Diagnostic>) -> (r: Result<
        RawToken,
        ClassifyErr,
    >)
        ensures
            match classified(string@) {
                None => {
                    &&& r == Err::<RawToken, ClassifyErr>(ClassifyErr::BadPattern)
                    &&& final(diagnostics)@ == old(diagnostics)@
                },
                Some(c) => {
                    &&& diags_view(final(diagnostics)@) == diags_view(old(diagnostics)@)
                        + c.remarks
                    &&& match r {
                        Ok(t) => c.token == Ok::<RawTokenView, ClassifyErr>(t@),
                        Err(e) => c.token == Err::<RawTokenView, ClassifyErr>(e),
                    }
                },
            },
    {
        let bracket_name = match group_text("^\\[(.*)\\]$", 1, string) {
            Ok(g) => g,
            Err(_) => {
                return Err(ClassifyErr::BadPattern);
            },
        };
        let paren_name = match group_text("^\\((.*)\\)$", 1, string) {
            Ok(g) => g,
            Err(_) => {
                return Err(ClassifyErr::BadPattern);
            },
        };
        let numeric = match is_match("^-?[0-9]+(\\.[0-9]+)?$", string) {
            Ok(b) => b,
            Err(_) => {
                return Err(ClassifyErr::BadPattern);
            },
        };
        RawToken::classify(string, bracket_name, paren_name, numeric, diagnostics)
    }

    /// The tokens that the texts are, in order. The first text that is no
    /// token ends the work with its error. Remarks are appended to
    /// `diagnostics`.
    pub fn from_vec_str(strings: Vec<&str>, diagnostics: &mut Vec<Diagnostic>) -> (r: Result<
        Vec<RawToken>,
        ClassifyErr,
    >)
        ensures
            ({
                let all = classify_from(
                    texts_view(strings@),
                    0,
                    Seq::empty(),
                    diags_view(old(diagnostics)@),
                );
                &&& diags_view(final(diagnostics)@) == all.remarks
                &&& match r {
                    Ok(v) => all.tokens == Ok::<Seq<RawTokenView>, ClassifyErr>(tokens_view(v@)),
                    Err(e) => all.tokens == Err::<Seq<RawTokenView>, ClassifyErr>(e),
                }
            }),
    {
        let mut out: Vec<RawToken> = Vec::new();
        let mut i: usize = 0;
        let ghost texts = texts_view(strings@);
        let ghost goal = classify_from(texts, 0, Seq::empty(), diags_view(diagnostics@));
        proof {
            assert(tokens_view(out@) =~= Seq::empty());
        }
        while i < strings.len()
            invariant
                i <= strings.len(),
                texts == texts_view(strings@),
                goal == classify_from(texts, 0, Seq::empty(), diags_view(old(diagnostics)@)),
                goal == classify_from(texts, i as int, tokens_view(out@), diags_view(diagnostics@)),
            decreases strings.len() - i,
        {
            let ghost before = diags_view(diagnostics@);
            match RawToken::from_str(strings[i], diagnostics) {
                Err(e) => {
                    proof {
                        if classified(texts[i as int]) is None {
                            assert(diags_view(diagnostics@) =~= before);
                        }
                    }
                    return Err(e);
                },
                Ok(t) => {
                    proof {
                        assert(tokens_view(out@.push(t)) =~= tokens_view(out@).push(t@));
                    }
                    out.push(t);
                },
            }
            i += 1;
        }
        Ok(out)
    }
}

/// The character of a decimal digit.
pub open spec fn digit_char(d: int) -> char {
    if d == 0 {
        '0'
    } else if d == 1 {
        '1'
    } else if d == 2 {
        '2'
    } else if d == 3 {
        '3'
    } else if d == 4 {
        '4'
    } else if d == 5 {
        '5'
    } else if d == 6 {
        '6'
    } else if d == 7 {
        '7'
    } else if d == 8 {
        '8'
    } else {
        '9'
    }
}

/// The decimal digits of a natural number, without leading zeros.
pub open spec fn digits_of(m: nat) -> Seq<char>
    decreases m,
{
    if m < 10 {
        seq![digit_char(m as int)]
    } else {
        digits_of(m / 10).push(digit_char((m % 10) as int))
    }
}

/// The decimal text of an integer: a minus sign where it is negative, then
/// its digits.
pub open spec fn decimal_text(n: int) -> Seq<char> {
    if n < 0 {
        seq!['-'] + digits_of((-n) as nat)
    } else {
        digits_of(n as nat)
    }
}

/// The text of one decimal digit.
fn digit_text(d: u128) -> (r: &'static str)
    requires
        d < 10,
    ensures
        r@ == seq![digit_char(d as int)],
{
    proof {
        reveal_strlit("0");
        reveal_strlit("1");
        reveal_strlit("2");
        reveal_strlit("3");
        reveal_strlit("4");
        reveal_strlit("5");
        reveal_strlit("6");
        reveal_strlit("7");
        reveal_strlit("8");
        reveal_strlit("9");
    }
    let r = if d == 0 {
        "0"
    } else if d == 1 {
        "1"
    } else if d == 2 {
        "2"
    } else if d == 3 {
        "3"
    } else if d == 4 {
        "4"
    } else if d == 5 {
        "5"
    } else if d == 6 {
        "6"
    } else if d == 7 {
        "7"
    } else if d == 8 {
        "8"
    } else {
        "9"
    };
    proof {
        assert(r@ =~= seq![digit_char(d as int)]);
    }
    r
}

/// The decimal digits of a natural number, as text.
fn digits_text(m: u128) -> (r: String)
    ensures
        r@ == digits_of(m as nat),
    decreases m,
{
    if m < 10 {
        digit_text(m).to_owned()
    } else {
        let mut text = digits_text(m / 10);
        let ghost head = text@;
        text.append(digit_text(m % 10));
        proof {
            assert(text@ =~= head.push(digit_char((m % 10) as int)));
        }
        text
    }
}

/// The decimal text of an integer: the form in which it is written out,
/// and which reads back as the same integer.
pub fn integer_text(n: isize) -> (r: String)
    ensures
        r@ == decimal_text(n as int),
        word_of_text(r@) == Some(n),
{
    proof {
        decimal_text_reads_back(n as int);
    }
    if n < 0 {
        let mut text = "-".to_owned();
        proof {
            reveal_strlit("-");
            assert(text@ =~= seq!['-']);
        }
        let digits = digits_text((-(n as i128)) as u128);
        text.append(digits.as_str());
        text
    } else {
        digits_text(n as u128)
    }
}

/// The digits of a number are digits, and they write that number.
pub proof fn lemma_digits_of(m: nat)
    ensures
        digits_of(m).len() > 0,
        all_digits(digits_of(m)),
        digits_value(digits_of(m)) == m,
        !digits_of(m).contains('.'),
    decreases m,
{
    let s = digits_of(m);
    if m < 10 {
        assert(s.drop_last() =~= Seq::<char>::empty());
        assert(digits_value(s.drop_last()) == 0);
        assert(s.last() == digit_char(m as int));
    } else {
        lemma_digits_of(m / 10);
        let head = digits_of(m / 10);
        assert(s.drop_last() =~= head);
        assert(s.last() == digit_char((m % 10) as int));
        assert forall|i: int| 0 <= i < s.len() implies digit_value(#[trigger] s[i]) is Some by {
            if i < head.len() {
                assert(s[i] == head[i]);
            }
        }
        assert forall|i: int| 0 <= i < s.len() implies s[i] != '.' by {
            if i < head.len() {
                assert(head.contains(head[i]));
            }
        }
    }
}

/// The decimal text of an integer writes that integer.
pub proof fn decimal_text_reads_back(n: int)
    ensures
        integer_of_text(decimal_text(n)) == Some(n),
        !decimal_text(n).contains('.'),
        decimal_text(n).len() > 0,
        decimal_text(n)[0] == '-' || digit_value(decimal_text(n)[0]) is Some,
{
    let t = decimal_text(n);
    if n < 0 {
        let d = digits_of((-n) as nat);
        lemma_digits_of((-n) as nat);
        assert(t.skip(1) =~= d);
        assert forall|i: int| 0 <= i < t.len() implies t[i] != '.' by {
            if i > 0 {
                assert(d.contains(d[i - 1]));
            }
        }
    } else {
        lemma_digits_of(n as nat);
        assert(digit_value(t[0]) is Some);
    }
}

/// A text that the patterns take for a number without brackets, and that
/// is the decimal text of an integer of the machine's word, is the number
/// literal of that integer, and leaves no remark.
pub proof fn integer_text_is_its_literal(n: isize)
    ensures
        token_for(decimal_text(n as int), None, None, true) == (Classified {
            token: Ok(RawTokenView::Number(NumberView::Integer(n))),
            remarks: Seq::empty(),
        }),
{
    let t = decimal_text(n as int);
    decimal_text_reads_back(n as int);
    reveal_strlit("{");
    reveal_strlit("}");
    assert(t != "{"@) by {
        assert("{"@[0] == '{');
    }
    assert(t != "}"@) by {
        assert("}"@[0] == '}');
    }
}

/// A text with a point that the patterns take for a number without
/// brackets is the decimal literal of that very text, and leaves no remark.
pub proof fn pointed_number_keeps_its_text(text: Seq<char>)
    requires
        text.contains('.'),
    ensures
        token_for(text, None, None, true) == (Classified {
            token: Ok(RawTokenView::Number(NumberView::Decimal(text))),
            remarks: Seq::empty(),
        }),
{
    reveal_strlit("{");
    reveal_strlit("}");
    let i = choose|i: int| 0 <= i < text.len() && text[i] == '.';
    assert(text != "{"@) by {
        if text.len() == 1 {
            assert(text[i] == '.' && "{"@[0] == '{');
        }
    }
    assert(text != "}"@) by {
        if text.len() == 1 {
            assert(text[i] == '.' && "}"@[0] == '}');
        }
    }
}

} // verus!
