//! The text model: rendered output as a sequence of pieces, literal text or
//! slots for bound values, how the slots are numbered, and the context that
//! collects the bound values.
use vstd::prelude::*;

use edgedb_protocol::value::Value as Payload;

verus! {

/// The runtime payload of one bound parameter, as the wire protocol encodes it.
#[verifier::external_type_specification]
#[verifier::external_body]
pub struct ExPayload(Payload);

/// Relies on the `Clone` that edgedb_protocol derives for its `Value`, a plain
/// enum of data: the copy is the same value.
pub assume_specification[ <Payload as Clone>::clone ](v: &Payload) -> (r: Payload)
    ensures
        r == *v,
;

/// One piece of rendered output: literal text, or a slot for a bound value
/// written as `<tag>$index`.
pub enum Piece {
    Text(Seq<char>),
    Slot(Seq<char>, Payload),
}

/// `n` spaces.
pub open spec fn spaces(n: nat) -> Seq<char> {
    Seq::new(n, |i: int| ' ')
}

pub open spec fn digit(d: nat) -> char {
    seq!['0', '1', '2', '3', '4', '5', '6', '7', '8', '9'][d as int]
}

/// The decimal digits of `n`, most significant first.
pub open spec fn decimal(n: nat) -> Seq<char>
    decreases n,
{
    if n < 10 {
        seq![digit(n)]
    } else {
        decimal(n / 10).push(digit(n % 10))
    }
}

/// How a slot is written when its value is the `index`-th parameter.
pub open spec fn placeholder(tag: Seq<char>, index: nat) -> Seq<char> {
    seq!['<'] + tag + seq!['>', '$'] + decimal(index)
}

/// The values that the slots of `ps` bind, in order.
pub closed spec fn payloads(ps: Seq<Piece>) -> Seq<Payload>
    decreases ps.len(),
{
    if ps.len() == 0 {
        Seq::empty()
    } else {
        let rest = payloads(ps.drop_last());
        match ps.last() {
            Piece::Text(_) => rest,
            Piece::Slot(_, v) => rest.push(v),
        }
    }
}

/// The text of `ps` when its first slot is the `base`-th parameter.
pub closed spec fn text_of(ps: Seq<Piece>, base: nat) -> Seq<char>
    decreases ps.len(),
{
    if ps.len() == 0 {
        Seq::empty()
    } else {
        let init = ps.drop_last();
        text_of(init, base) + match ps.last() {
            Piece::Text(t) => t,
            Piece::Slot(tag, _) => placeholder(tag, base + payloads(init).len()),
        }
    }
}

pub proof fn lemma_concat(a: Seq<Piece>, b: Seq<Piece>, base: nat)
    ensures
        payloads(a + b) == payloads(a) + payloads(b),
        text_of(a + b, base) == text_of(a, base) + text_of(b, base + payloads(a).len()),
    decreases b.len(),
{
    if b.len() == 0 {
        assert(a + b =~= a);
        assert(payloads(a) + payloads(b) =~= payloads(a));
        assert(text_of(a, base) + text_of(b, base + payloads(a).len()) =~= text_of(a, base));
    } else {
        let b0 = b.drop_last();
        lemma_concat(a, b0, base);
        assert((a + b).drop_last() =~= a + b0);
        assert((a + b).last() == b.last());
        match b.last() {
            Piece::Text(t) => {
                assert(payloads(a + b) =~= payloads(a) + payloads(b));
                assert(text_of(a + b, base) =~= text_of(a, base) + text_of(b, base + payloads(a).len()));
            },
            Piece::Slot(tag, v) => {
                assert(payloads(a + b) =~= payloads(a) + payloads(b));
                assert(text_of(a + b, base) =~= text_of(a, base) + text_of(b, base + payloads(a).len()));
            },
        }
    }
}

/// The text of a single literal piece is the literal; it binds nothing.
pub proof fn lemma_text_piece(s: Seq<char>, n: nat)
    ensures
        text_of(seq![Piece::Text(s)], n) == s,
        payloads(seq![Piece::Text(s)]) == Seq::<Payload>::empty(),
{
    let p = seq![Piece::Text(s)];
    assert(p.drop_last() =~= Seq::<Piece>::empty());
    assert(p.last() == Piece::Text(s));
    assert(text_of(p.drop_last(), n) =~= Seq::<char>::empty());
    assert(payloads(p.drop_last()) =~= Seq::<Payload>::empty());
    assert(text_of(p, n) =~= s);
    assert(payloads(p) =~= Seq::<Payload>::empty());
}

/// A single slot is written as its placeholder and binds its value.
pub proof fn lemma_slot_piece(tag: Seq<char>, v: Payload, n: nat)
    ensures
        text_of(seq![Piece::Slot(tag, v)], n) == placeholder(tag, n),
        payloads(seq![Piece::Slot(tag, v)]) == seq![v],
{
    let p = seq![Piece::Slot(tag, v)];
    assert(p.drop_last() =~= Seq::<Piece>::empty());
    assert(p.last() == Piece::Slot(tag, v));
    assert(text_of(p.drop_last(), n) =~= Seq::<char>::empty());
    assert(payloads(p.drop_last()) =~= Seq::<Payload>::empty());
    assert(text_of(p, n) =~= placeholder(tag, n));
    assert(payloads(p) =~= seq![v]);
}

/// Nothing renders to nothing.
pub proof fn lemma_empty(n: nat)
    ensures
        text_of(Seq::<Piece>::empty(), n) == Seq::<char>::empty(),
        payloads(Seq::<Piece>::empty()) == Seq::<Payload>::empty(),
{
}

/// The number of slots in `ps`.
pub open spec fn slot_count(ps: Seq<Piece>) -> nat
    decreases ps.len(),
{
    if ps.len() == 0 {
        0
    } else {
        slot_count(ps.drop_last()) + if ps.last() is Slot {
            1nat
        } else {
            0nat
        }
    }
}

proof fn lemma_payload_count(ps: Seq<Piece>)
    ensures
        payloads(ps).len() == slot_count(ps),
    decreases ps.len(),
{
    if ps.len() > 0 {
        lemma_payload_count(ps.drop_last());
    }
}

/// Slots are numbered in order of appearance: the slot at position `j` of
/// `ps` is written `<tag>$N`, where `N` is `base` plus the number of slots
/// before it, and it binds the parameter at that same position `N - base`.
/// There are exactly as many parameters as slots.
pub proof fn law_slots_numbered(ps: Seq<Piece>, base: nat, j: int)
    requires
        0 <= j < ps.len(),
        ps[j] is Slot,
    ensures
        payloads(ps).len() == slot_count(ps),
        text_of(ps, base) == text_of(ps.take(j), base) + placeholder(
            ps[j]->Slot_0,
            base + slot_count(ps.take(j)),
        ) + text_of(ps.skip(j + 1), base + slot_count(ps.take(j)) + 1),
        payloads(ps)[slot_count(ps.take(j)) as int] == ps[j]->Slot_1,
{
    let a = ps.take(j);
    let one = seq![ps[j]];
    let b = ps.skip(j + 1);
    assert(ps =~= a + one + b);
    lemma_payload_count(ps);
    lemma_payload_count(a);
    lemma_concat(a, one, base);
    lemma_concat(a + one, b, base);
    lemma_slot_piece(ps[j]->Slot_0, ps[j]->Slot_1, base + payloads(a).len());
    assert(one == seq![Piece::Slot(ps[j]->Slot_0, ps[j]->Slot_1)]);
    assert(payloads(a + one).len() == payloads(a).len() + 1);
}

/// How many times `c` occurs in `s`.
pub open spec fn count_char(s: Seq<char>, c: char) -> nat
    decreases s.len(),
{
    if s.len() == 0 {
        0
    } else {
        count_char(s.drop_last(), c) + if s.last() == c {
            1nat
        } else {
            0nat
        }
    }
}

proof fn lemma_count_concat(a: Seq<char>, b: Seq<char>, c: char)
    ensures
        count_char(a + b, c) == count_char(a, c) + count_char(b, c),
    decreases b.len(),
{
    if b.len() == 0 {
        assert(a + b =~= a);
    } else {
        lemma_count_concat(a, b.drop_last(), c);
        assert((a + b).drop_last() =~= a + b.drop_last());
        assert((a + b).last() == b.last());
    }
}

proof fn lemma_count_single(x: char, c: char)
    ensures
        count_char(seq![x], c) == if x == c {
            1nat
        } else {
            0nat
        },
{
    let s = seq![x];
    assert(s.drop_last() =~= Seq::<char>::empty());
    assert(count_char(Seq::<char>::empty(), c) == 0);
    assert(s.last() == x);
}

proof fn lemma_decimal_has_no_dollar(n: nat)
    ensures
        count_char(decimal(n), '$') == 0,
    decreases n,
{
    let d = n % 10;
    assert(digit(d) != '$') by {
        let ds = seq!['0', '1', '2', '3', '4', '5', '6', '7', '8', '9'];
        assert(ds[d as int] == ds[d as int]);
        if d == 0 { assert(digit(d) == '0'); } else if d == 1 { assert(digit(d) == '1'); }
        else if d == 2 { assert(digit(d) == '2'); } else if d == 3 { assert(digit(d) == '3'); }
        else if d == 4 { assert(digit(d) == '4'); } else if d == 5 { assert(digit(d) == '5'); }
        else if d == 6 { assert(digit(d) == '6'); } else if d == 7 { assert(digit(d) == '7'); }
        else if d == 8 { assert(digit(d) == '8'); } else { assert(digit(d) == '9'); }
    }
    if n < 10 {
        assert(d == n);
        lemma_count_single(digit(n), '$');
    } else {
        lemma_decimal_has_no_dollar(n / 10);
        lemma_count_concat(decimal(n / 10), seq![digit(d)], '$');
        lemma_count_single(digit(d), '$');
        assert(decimal(n) =~= decimal(n / 10) + seq![digit(d)]);
    }
}

/// No literal text and no tag of `ps` holds a `$`.
pub open spec fn dollar_free(ps: Seq<Piece>) -> bool {
    forall|k: int|
        0 <= k < ps.len() ==> match #[trigger] ps[k] {
            Piece::Text(t) => count_char(t, '$') == 0,
            Piece::Slot(tag, _) => count_char(tag, '$') == 0,
        }
}

/// Where no literal text and no tag holds a `$`, the rendered text holds
/// exactly one `$` for each bound parameter: each placeholder is one token.
pub proof fn law_one_dollar_per_parameter(ps: Seq<Piece>, base: nat)
    requires
        dollar_free(ps),
    ensures
        count_char(text_of(ps, base), '$') == payloads(ps).len(),
    decreases ps.len(),
{
    if ps.len() > 0 {
        let init = ps.drop_last();
        assert(dollar_free(init)) by {
            assert forall|k: int| 0 <= k < init.len() implies match #[trigger] init[k] {
                Piece::Text(t) => count_char(t, '$') == 0,
                Piece::Slot(tag, _) => count_char(tag, '$') == 0,
            } by {
                assert(init[k] == ps[k]);
            }
        }
        law_one_dollar_per_parameter(init, base);
        assert(ps.last() == ps[ps.len() - 1]);
        match ps.last() {
            Piece::Text(t) => {
                lemma_count_concat(text_of(init, base), t, '$');
            },
            Piece::Slot(tag, _) => {
                let n = base + payloads(init).len();
                lemma_decimal_has_no_dollar(n);
                let open_tag = seq!['<'] + tag;
                let mark = seq!['>', '$'];
                lemma_count_concat(seq!['<'], tag, '$');
                lemma_count_concat(open_tag, mark, '$');
                lemma_count_concat(open_tag + mark, decimal(n), '$');
                lemma_count_single('<', '$');
                lemma_count_single('>', '$');
                lemma_count_single('$', '$');
                lemma_count_concat(seq!['>'], seq!['$'], '$');
                assert(mark =~= seq!['>'] + seq!['$']);
                assert(count_char(mark, '$') == 1);
                lemma_count_concat(text_of(init, base), placeholder(tag, n), '$');
            },
        }
    }
}

/// The parameters bound while one query is rendered, in the order in which
/// their placeholders appear.
pub struct Context {
    args: Vec<Payload>,
}

impl View for Context {
    type V = Seq<Payload>;

    closed spec fn view(&self) -> Seq<Payload> {
        self.args@
    }
}

impl Default for Context {
    fn default() -> (r: Context)
        ensures
            r@ == Seq::<Payload>::empty(),
    {
        Context::new()
    }
}

impl Context {
    /// A context with no parameters bound yet.
    pub fn new() -> (r: Context)
        ensures
            r@ == Seq::<Payload>::empty(),
    {
        Context { args: Vec::new() }
    }

    /// The number of parameters bound so far.
    pub fn len(&self) -> (r: usize)
        ensures
            r == self@.len(),
    {
        self.args.len()
    }

    /// Binds `payload` as the next parameter and appends its placeholder,
    /// `<tag>$index`, where `index` is the parameter's position.
    pub fn bind(&mut self, q: &mut String, tag: &str, payload: Payload)
        ensures
            final(q)@ == old(q)@ + placeholder(tag@, old(self)@.len()),
            final(self)@ == old(self)@.push(payload),
    {
        proof {
            reveal_strlit("<");
            reveal_strlit(">$");
        }
        q.append("<");
        q.append(tag);
        q.append(">$");
        push_decimal(q, self.args.len());
        self.args.push(payload);
        assert(q@ =~= old(q)@ + placeholder(tag@, old(self)@.len()));
    }

    /// The parameters bound so far, handed over to whoever sends the query.
    pub fn into_values(self) -> (r: Vec<Payload>)
        ensures
            r@ == self@,
    {
        self.args
    }
}


/// The indent one level deeper than `indent`; it stops growing at the largest `usize`.
pub open spec fn nest(indent: nat) -> nat {
    if indent + 2 <= usize::MAX {
        indent + 2
    } else {
        usize::MAX as nat
    }
}

pub(crate) fn deeper(indent: usize) -> (r: usize)
    ensures
        r == nest(indent as nat),
{
    if indent <= usize::MAX - 2 {
        indent + 2
    } else {
        usize::MAX
    }
}

/// Appends `n` spaces.
pub(crate) fn push_indent(q: &mut String, n: usize)
    ensures
        final(q)@ == old(q)@ + spaces(n as nat),
{
    let mut i: usize = 0;
    while i < n
        invariant
            i <= n,
            q@ == old(q)@ + spaces(i as nat),
        decreases n - i,
    {
        proof {
            reveal_strlit(" ");
        }
        q.append(" ");
        i = i + 1;
        assert(q@ =~= old(q)@ + spaces(i as nat));
    }
}

/// Appends `s` after `indent` spaces.
pub(crate) fn push_line(q: &mut String, s: &str, indent: usize)
    ensures
        final(q)@ == old(q)@ + spaces(indent as nat) + s@,
{
    push_indent(q, indent);
    q.append(s);
}

fn digit_str(d: usize) -> (r: &'static str)
    requires
        d < 10,
    ensures
        r@ == seq![digit(d as nat)],
{
    proof {
        reveal_strlit("0");
        reveal_strlit("1");
        reveal_strlit("2");
        reveal_strlit("3");
        reveal_strlit("4");
        reveal_strlit("5");
        reveal_strlit("6");
        reveal_strlit("7");
        reveal_strlit("8");
        reveal_strlit("9");
    }
    match d {
        0 => "0",
        1 => "1",
        2 => "2",
        3 => "3",
        4 => "4",
        5 => "5",
        6 => "6",
        7 => "7",
        8 => "8",
        _ => "9",
    }
}

/// Appends the decimal digits of `n`.
pub(crate) fn push_decimal(q: &mut String, n: usize)
    ensures
        final(q)@ == old(q)@ + decimal(n as nat),
    decreases n,
{
    if n >= 10 {
        push_decimal(q, n / 10);
    }
    q.append(digit_str(n % 10));
    assert(q@ =~= old(q)@ + decimal(n as nat));
}

} // verus!
