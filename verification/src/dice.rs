//! Dice expressions such as `2d20+5`: terms separated by `+`, each either
//! `NdS` (N dice of S sides) or a flat number.

use vstd::prelude::*;
use crate::crypto::random_u32;
use crate::text::{chars_of, parse_i64, parse_i64_chars, split};

verus! {

/// The views of a list of character vectors.
pub open spec fn views(v: Seq<Vec<char>>) -> Seq<Seq<char>> {
    v.map_values(|x: Vec<char>| x@)
}

/// Splits characters at every occurrence of a separator.
pub fn split_chars(s: &[char], sep: char) -> (parts: Vec<Vec<char>>)
    ensures
        views(parts@) == split(s@, sep),
{
    let mut parts: Vec<Vec<char>> = Vec::new();
    let mut cur: Vec<char> = Vec::new();
    let n = s.len();
    proof {
        assert(s@.take(0) =~= Seq::<char>::empty());
        assert(views(parts@).push(cur@) =~= split(s@.take(0), sep));
    }
    for i in 0..n
        invariant
            n == s@.len(),
            views(parts@).push(cur@) == split(s@.take(i as int), sep),
    {
        let c = s[i];
        let ghost before = s@.take(i as int);
        let ghost after = s@.take(i + 1);
        assert(after.drop_last() =~= before);
        assert(after.last() == c);
        if c == sep {
            parts.push(cur);
            cur = Vec::new();
            assert(views(parts@).push(cur@) =~= split(after, sep));
        } else {
            cur.push(c);
            assert(views(parts@).push(cur@) =~= split(after, sep));
        }
    }
    assert(s@.take(n as int) =~= s@);
    parts.push(cur);
    assert(views(parts@) =~= split(s@, sep));
    parts
}

/// One term of a dice expression.
#[derive(Clone, Copy, Debug, PartialEq, Eq, Structural)]
pub enum DiceTerm {
    /// `count` dice with `sides` sides each.
    Dice { count: i64, sides: i64 },
    /// A number added as it is.
    Flat { value: i64 },
    /// A term with more than one `d`, which adds nothing.
    Unused,
}

/// The term that a piece of a dice expression stands for: with one `d`, a
/// count before it (1 where it is not a number) and sides after it (20
/// where they are not a number); with more than one `d`, nothing; without
/// a `d`, the number it is (0 where it is not a number).
pub open spec fn term_of(part: Seq<char>) -> DiceTerm {
    if part.contains('d') {
        let dims = split(part, 'd');
        if dims.len() == 2 {
            DiceTerm::Dice {
                count: match parse_i64(dims[0]) {
                    Some(v) => v,
                    None => 1,
                },
                sides: match parse_i64(dims[1]) {
                    Some(v) => v,
                    None => 20,
                },
            }
        } else {
            DiceTerm::Unused
        }
    } else {
        DiceTerm::Flat {
            value: match parse_i64(part) {
                Some(v) => v,
                None => 0,
            },
        }
    }
}

/// The terms of a dice expression: its pieces between `+` signs.
pub open spec fn dice_terms(expr: Seq<char>) -> Seq<DiceTerm> {
    split(expr, '+').map_values(|p: Seq<char>| term_of(p))
}

fn contains_char(s: &[char], c: char) -> (r: bool)
    ensures
        r == s@.contains(c),
{
    let n = s.len();
    for i in 0..n
        invariant
            n == s@.len(),
            forall|j: int| 0 <= j < i ==> s@[j] != c,
    {
        if s[i] == c {
            assert(s@[i as int] == c);
            return true;
        }
    }
    false
}

fn term_of_chars(part: &[char]) -> (t: DiceTerm)
    ensures
        t == term_of(part@),
{
    if contains_char(part, 'd') {
        let dims = split_chars(part, 'd');
        assert(views(dims@).len() == dims@.len());
        if dims.len() == 2 {
            assert(views(dims@)[0] == dims@[0]@);
            assert(views(dims@)[1] == dims@[1]@);
            let count = match parse_i64_chars(dims[0].as_slice()) {
                Some(v) => v,
                None => 1,
            };
            let sides = match parse_i64_chars(dims[1].as_slice()) {
                Some(v) => v,
                None => 20,
            };
            DiceTerm::Dice { count, sides }
        } else {
            DiceTerm::Unused
        }
    } else {
        let value = match parse_i64_chars(part) {
            Some(v) => v,
            None => 0,
        };
        DiceTerm::Flat { value }
    }
}

/// Parses a dice expression into its terms.
pub fn parse_dice_expression(expression: &str) -> (terms: Vec<DiceTerm>)
    ensures
        terms@ == dice_terms(expression@),
{
    let cs = chars_of(expression);
    let parts = split_chars(cs.as_slice(), '+');
    let mut terms: Vec<DiceTerm> = Vec::new();
    let n = parts.len();
    for i in 0..n
        invariant
            n == parts@.len(),
            views(parts@) == split(expression@, '+'),
            terms@ == views(parts@).take(i as int).map_values(|p: Seq<char>| term_of(p)),
    {
        assert(views(parts@)[i as int] == parts@[i as int]@);
        let t = term_of_chars(parts[i].as_slice());
        terms.push(t);
        assert(terms@ =~= views(parts@).take(i + 1).map_values(|p: Seq<char>| term_of(p)));
    }
    assert(views(parts@).take(n as int) =~= views(parts@));
    terms
}

/// The absolute value of an integer.
pub open spec fn abs(x: int) -> int {
    if x < 0 {
        -x
    } else {
        x
    }
}

/// The face that a random number gives on a die of `sides` sides: the
/// remainder of the number by the size of `sides`, plus one (what
/// `(r as i64 % sides) + 1` computes for a non-negative `r`).
pub open spec fn die_face(r: u32, sides: int) -> int {
    (r as int) % abs(sides) + 1
}

/// The sum of the faces that a run of random numbers gives.
pub open spec fn faces_sum(sides: int, draws: Seq<u32>) -> int
    decreases draws.len(),
{
    if draws.len() == 0 {
        0
    } else {
        faces_sum(sides, draws.drop_last()) + die_face(draws.last(), sides)
    }
}

/// How many dice a term rolls.
pub open spec fn term_dice(t: DiceTerm) -> nat {
    match t {
        DiceTerm::Dice { count, .. } => if count > 0 {
            count as nat
        } else {
            0
        },
        _ => 0,
    }
}

/// How many dice the terms roll.
pub open spec fn dice_count(terms: Seq<DiceTerm>) -> nat
    decreases terms.len(),
{
    if terms.len() == 0 {
        0
    } else {
        dice_count(terms.drop_last()) + term_dice(terms.last())
    }
}

/// What a term adds, given the random numbers drawn for its dice.
pub open spec fn term_value(t: DiceTerm, draws: Seq<u32>) -> int {
    match t {
        DiceTerm::Dice { sides, .. } => faces_sum(sides as int, draws),
        DiceTerm::Flat { value } => value as int,
        DiceTerm::Unused => 0,
    }
}

/// The total of the terms, given the random numbers drawn for their dice,
/// in order.
pub open spec fn roll_total(terms: Seq<DiceTerm>, draws: Seq<u32>) -> int
    decreases terms.len(),
{
    if terms.len() == 0 {
        0
    } else {
        let k = dice_count(terms.drop_last());
        roll_total(terms.drop_last(), draws.take(k as int)) + term_value(terms.last(), draws.skip(k as int))
    }
}

/// The largest face a die of `sides` sides can show: its number of sides,
/// but at most 2^32, one more than the largest random number drawn.
pub open spec fn max_face(sides: int) -> int {
    if abs(sides) < 0x1_0000_0000 {
        abs(sides)
    } else {
        0x1_0000_0000
    }
}

/// The least a term adds: one for every die, or its number.
pub open spec fn term_min(t: DiceTerm) -> int {
    match t {
        DiceTerm::Dice { .. } => term_dice(t) as int,
        DiceTerm::Flat { value } => value as int,
        DiceTerm::Unused => 0,
    }
}

/// The most a term adds: the largest face for every die, or its number.
pub open spec fn term_max(t: DiceTerm) -> int {
    match t {
        DiceTerm::Dice { sides, .. } => term_dice(t) * max_face(sides as int),
        DiceTerm::Flat { value } => value as int,
        DiceTerm::Unused => 0,
    }
}

/// The least total of the terms: their flat numbers plus one per die.
pub open spec fn roll_min(terms: Seq<DiceTerm>) -> int
    decreases terms.len(),
{
    if terms.len() == 0 {
        0
    } else {
        roll_min(terms.drop_last()) + term_min(terms.last())
    }
}

/// The greatest total of the terms: their flat numbers plus the largest
/// face of every die.
pub open spec fn roll_max(terms: Seq<DiceTerm>) -> int
    decreases terms.len(),
{
    if terms.len() == 0 {
        0
    } else {
        roll_max(terms.drop_last()) + term_max(terms.last())
    }
}

/// No die that is rolled has zero sides (the remainder by zero would
/// panic).
pub open spec fn sides_nonzero(terms: Seq<DiceTerm>) -> bool {
    forall|i: int|
        0 <= i < terms.len() ==> #[trigger] term_dice(terms[i]) > 0 ==> (terms[i] matches DiceTerm::Dice {
            sides,
            ..
        } && sides != 0)
}

/// Both the least and the greatest total of the terms fit in `i64`.
pub open spec fn within_i64(terms: Seq<DiceTerm>) -> bool {
    i64::MIN <= roll_min(terms) && roll_max(terms) <= i64::MAX
}

/// Terms that can be rolled whatever the random numbers: no die that is
/// rolled has zero sides, and the running total, which moves up from one
/// term's end to the next by at least the term's least and at most its
/// greatest value, stays in `i64` at the end of every term.
pub open spec fn rollable(terms: Seq<DiceTerm>) -> bool {
    &&& sides_nonzero(terms)
    &&& forall|i: int| 0 <= i <= terms.len() ==> #[trigger] within_i64(terms.take(i))
}

} // verus!

verus! {

proof fn lemma_prefix_step(terms: Seq<DiceTerm>, i: int)
    requires
        0 <= i < terms.len(),
    ensures
        terms.take(i + 1).drop_last() == terms.take(i),
        terms.take(i + 1).last() == terms[i],
        roll_min(terms.take(i + 1)) == roll_min(terms.take(i)) + term_min(terms[i]),
        roll_max(terms.take(i + 1)) == roll_max(terms.take(i)) + term_max(terms[i]),
        dice_count(terms.take(i + 1)) == dice_count(terms.take(i)) + term_dice(terms[i]),
{
    assert(terms.take(i + 1).drop_last() =~= terms.take(i));
}

proof fn lemma_dice_count_prefix(terms: Seq<DiceTerm>, i: int)
    requires
        0 <= i <= terms.len(),
    ensures
        dice_count(terms.take(i)) <= dice_count(terms),
    decreases terms.len() - i,
{
    if i < terms.len() {
        lemma_dice_count_prefix(terms, i + 1);
        lemma_prefix_step(terms, i);
    } else {
        assert(terms.take(i) =~= terms);
    }
}

proof fn lemma_faces_step(sides: int, ds: Seq<u32>, r: u32)
    ensures
        faces_sum(sides, ds.push(r)) == faces_sum(sides, ds) + die_face(r, sides),
{
    assert(ds.push(r).drop_last() =~= ds);
}

proof fn lemma_mul_step(k: int, m: int)
    requires
        k >= 0,
        m >= 0,
    ensures
        (k + 1) * m == k * m + m,
        k * m >= 0,
{
    assert((k + 1) * m == k * m + m) by (nonlinear_arith);
    assert(k * m >= 0) by (nonlinear_arith)
        requires
            k >= 0,
            m >= 0,
    ;
}

proof fn lemma_mul_mono(k: int, c: int, m: int)
    requires
        0 <= k <= c,
        m >= 0,
    ensures
        k * m <= c * m,
{
    assert(k * m <= c * m) by (nonlinear_arith)
        requires
            0 <= k <= c,
            m >= 0,
    ;
}

/// The face a random number shows on a die with a nonzero number of
/// sides.
fn die_face_of(r: u32, sides: i64) -> (face: i64)
    requires
        sides != 0,
    ensures
        face == die_face(r, sides as int),
        1 <= face <= max_face(sides as int),
{
    let size: u64 = if sides < 0 {
        if sides == i64::MIN {
            9223372036854775808u64
        } else {
            (-sides) as u64
        }
    } else {
        sides as u64
    };
    assert(size as int == abs(sides as int));
    let rem = (r as u64) % size;
    assert(rem <= r) by (nonlinear_arith)
        requires
            rem == (r as u64) % size,
            size > 0,
    ;
    (rem + 1) as i64
}

/// A source of the random numbers a roll draws, one per die, in order.
pub trait DrawSource {
    /// The numbers given so far, in order.
    spec fn drawn(&self) -> Seq<u32>;

    /// Whether `n` more numbers can be given.
    spec fn can_draw(&self, n: nat) -> bool;

    /// What the source was made from: the numbers given in advance, if any.
    spec fn origin(&self) -> Seq<u32>;

    /// A source that can give `n` more numbers can give fewer.
    proof fn lemma_can_draw_fewer(&self, n: nat, m: nat)
        requires
            self.can_draw(n),
            m <= n,
        ensures
            self.can_draw(m),
    ;

    /// Gives the next number.
    fn draw(&mut self) -> (r: u32)
        requires
            old(self).can_draw(1),
        ensures
            final(self).drawn() == old(self).drawn().push(r),
            final(self).origin() == old(self).origin(),
            forall|n: nat| old(self).can_draw(n + 1) ==> #[trigger] final(self).can_draw(n),
    ;
}

/// Numbers given in advance, handed out in order.
pub struct GivenDraws<'a> {
    draws: &'a [u32],
    next: usize,
}

impl<'a> GivenDraws<'a> {
    /// A source that hands out these numbers, in order.
    pub fn new(draws: &'a [u32]) -> (src: Self)
        ensures
            src.drawn() == Seq::<u32>::empty(),
            forall|n: nat| #[trigger] src.can_draw(n) <==> n <= draws@.len(),
            src.origin() == draws@,
    {
        let src = GivenDraws { draws, next: 0 };
        assert(src.drawn() =~= Seq::<u32>::empty());
        src
    }

    /// The numbers handed out so far are the first of those given.
    pub proof fn lemma_drawn_prefix(&self)
        ensures
            self.drawn().len() <= self.origin().len(),
            self.drawn() == self.origin().take(self.drawn().len() as int),
    {
        if self.next <= self.draws@.len() {
            assert(self.drawn() =~= self.origin().take(self.drawn().len() as int));
        } else {
            assert(self.origin().take(self.origin().len() as int) =~= self.origin());
        }
    }
}

impl<'a> DrawSource for GivenDraws<'a> {
    closed spec fn drawn(&self) -> Seq<u32> {
        if self.next <= self.draws@.len() {
            self.draws@.take(self.next as int)
        } else {
            self.draws@
        }
    }

    closed spec fn can_draw(&self, n: nat) -> bool {
        self.next + n <= self.draws@.len()
    }

    closed spec fn origin(&self) -> Seq<u32> {
        self.draws@
    }

    proof fn lemma_can_draw_fewer(&self, n: nat, m: nat) {
    }

    fn draw(&mut self) -> (r: u32) {
        let r = self.draws[self.next];
        proof {
            assert(self.draws@.take(self.next + 1) =~= self.draws@.take(self.next as int).push(r));
        }
        self.next = self.next + 1;
        r
    }
}

/// Fresh random numbers (`rand::random::<u32>()`), as many as asked for.
pub struct RandomDraws {
    history: Ghost<Seq<u32>>,
}

impl RandomDraws {
    /// A source of random numbers that has given none yet.
    pub fn new() -> (src: Self)
        ensures
            src.drawn() == Seq::<u32>::empty(),
            forall|n: nat| #[trigger] src.can_draw(n),
    {
        RandomDraws { history: Ghost(Seq::empty()) }
    }
}

impl DrawSource for RandomDraws {
    closed spec fn drawn(&self) -> Seq<u32> {
        self.history@
    }

    closed spec fn can_draw(&self, n: nat) -> bool {
        true
    }

    closed spec fn origin(&self) -> Seq<u32> {
        Seq::empty()
    }

    proof fn lemma_can_draw_fewer(&self, n: nat, m: nat) {
    }

    fn draw(&mut self) -> (r: u32) {
        let r = random_u32();
        self.history = Ghost(self.history@.push(r));
        r
    }
}

/// Rolls parsed terms with numbers from a source, one per die in order:
/// flat numbers are added as they are, and each die adds the face its
/// number shows.  The numbers used are those the source gives during the
/// roll, one per die.
pub fn roll_terms<D: DrawSource>(terms: &Vec<DiceTerm>, source: &mut D) -> (total: i64)
    requires
        rollable(terms@),
        old(source).can_draw(dice_count(terms@)),
    ensures
        final(source).drawn().len() == old(source).drawn().len() + dice_count(terms@),
        final(source).origin() == old(source).origin(),
        final(source).drawn().take(old(source).drawn().len() as int) == old(source).drawn(),
        total == roll_total(terms@, final(source).drawn().skip(old(source).drawn().len() as int)),
        roll_min(terms@) <= total <= roll_max(terms@),
{
    let ghost all = terms@;
    let ghost h0 = source.drawn();
    let ghost o0 = source.origin();
    let ghost mut draws: Seq<u32> = Seq::empty();
    let mut total: i64 = 0;
    let n = terms.len();
    proof {
        assert(all.take(0) =~= Seq::<DiceTerm>::empty());
        assert(h0 + draws =~= h0);
        lemma_dice_count_prefix(all, 0);
    }
    for i in 0..n
        invariant
            n == all.len(),
            terms@ == all,
            rollable(all),
            source.drawn() == h0 + draws,
            source.origin() == o0,
            draws.len() == dice_count(all.take(i as int)),
            dice_count(all.take(i as int)) <= dice_count(all),
            source.can_draw((dice_count(all) - dice_count(all.take(i as int))) as nat),
            total as int == roll_total(all.take(i as int), draws),
            roll_min(all.take(i as int)) <= total <= roll_max(all.take(i as int)),
    {
        let ghost before = all.take(i as int);
        let ghost after = all.take(i + 1);
        let ghost base = total as int;
        let ghost start = draws;
        let ghost rest: nat = (dice_count(all) - dice_count(after)) as nat;
        proof {
            lemma_prefix_step(all, i as int);
            lemma_dice_count_prefix(all, i + 1);
            assert(within_i64(before));
            assert(within_i64(after));
            assert(start.take(dice_count(before) as int) =~= start);
        }
        match terms[i] {
            DiceTerm::Flat { value } => {
                total = total + value;
                proof {
                    assert(start.skip(dice_count(before) as int) =~= Seq::<u32>::empty());
                }
            },
            DiceTerm::Unused => {
                proof {
                    assert(start.skip(dice_count(before) as int) =~= Seq::<u32>::empty());
                }
            },
            DiceTerm::Dice { count, sides } => {
                let ghost m = max_face(sides as int);
                let ghost dice = term_dice(all[i as int]);
                assert(dice > 0 ==> sides != 0);
                let mut k: i64 = 0;
                let ghost mut ds: Seq<u32> = Seq::empty();
                proof {
                    assert(start + ds =~= start);
                }
                while k < count
                    invariant
                        0 <= k,
                        count > 0 ==> k <= count,
                        count <= 0 ==> k == 0,
                        dice == (if count > 0 { count as nat } else { 0 }),
                        dice > 0 ==> sides != 0,
                        m == max_face(sides as int),
                        ds.len() == k,
                        source.drawn() == h0 + (start + ds),
                        source.origin() == o0,
                        source.can_draw((rest + dice - k) as nat),
                        total as int == base + faces_sum(sides as int, ds),
                        k <= faces_sum(sides as int, ds) <= k * m,
                        dice * m == term_max(all[i as int]),
                        roll_min(before) <= base <= roll_max(before),
                        i64::MIN <= roll_min(before),
                        roll_max(before) + term_max(all[i as int]) <= i64::MAX,
                    decreases count - k,
                {
                    proof {
                        source.lemma_can_draw_fewer((rest + dice - k) as nat, 1);
                    }
                    let r = source.draw();
                    proof {
                        assert(source.can_draw((rest + dice - k - 1) as nat));
                        assert(h0 + (start + ds.push(r)) =~= (h0 + (start + ds)).push(r));
                    }
                    let face = die_face_of(r, sides);
                    proof {
                        lemma_faces_step(sides as int, ds, r);
                        lemma_mul_step(k as int, m);
                        lemma_mul_mono(k as int + 1, count as int, m);
                    }
                    total = total + face;
                    proof {
                        ds = ds.push(r);
                    }
                    k = k + 1;
                }
                proof {
                    draws = start + ds;
                    assert(draws.skip(dice_count(before) as int) =~= ds);
                    assert(draws.take(dice_count(before) as int) =~= start);
                }
            },
        }
        proof {
            assert(draws.take(dice_count(before) as int) =~= start);
            assert(total as int == roll_total(after, draws));
        }
    }
    proof {
        assert(all.take(n as int) =~= all);
        assert((h0 + draws).take(h0.len() as int) =~= h0);
        assert((h0 + draws).skip(h0.len() as int) =~= draws);
    }
    total
}

/// Rolls a dice expression such as `2d20+5`: the sum of its flat numbers
/// and of one random face for every die.  The result is the total that
/// some draw of random numbers, one per die, gives, and lies between the
/// least and the greatest total of the expression (for `2d20+5`, between
/// 7 and 45).
pub fn roll_dice(expression: &str) -> (total: i64)
    requires
        rollable(dice_terms(expression@)),
    ensures
        exists|draws: Seq<u32>|
            draws.len() == dice_count(dice_terms(expression@)) && total == roll_total(
                dice_terms(expression@),
                draws,
            ),
        roll_min(dice_terms(expression@)) <= total <= roll_max(dice_terms(expression@)),
{
    let terms = parse_dice_expression(expression);
    let mut source = RandomDraws::new();
    assert(source.can_draw(dice_count(terms@)));
    let total = roll_terms(&terms, &mut source);
    assert(source.drawn().skip(0) =~= source.drawn());
    total
}

} // verus!

verus! {

/// Rolls parsed terms with given random numbers, one per die in order:
/// the total that `roll_dice` reaches when the random source gives these
/// numbers.
pub fn roll_with_draws(terms: &Vec<DiceTerm>, draws: &[u32]) -> (total: i64)
    requires
        rollable(terms@),
        draws@.len() == dice_count(terms@),
    ensures
        total == roll_total(terms@, draws@),
        roll_min(terms@) <= total <= roll_max(terms@),
{
    let mut source = GivenDraws::new(draws);
    assert(source.can_draw(dice_count(terms@)));
    let total = roll_terms(terms, &mut source);
    proof {
        source.lemma_drawn_prefix();
        assert(source.drawn().skip(0) =~= source.drawn());
        assert(draws@.take(draws@.len() as int) =~= draws@);
    }
    total
}

/// Whether parsed terms can be rolled whatever the random numbers (see
/// `rollable`): it follows the least and the greatest running total from
/// term to term, and stops at the first die of zero sides or the first
/// total that leaves `i64`.
pub fn check_rollable(terms: &Vec<DiceTerm>) -> (ok: bool)
    ensures
        ok == rollable(terms@),
{
    let n = terms.len();
    let ghost all = terms@;
    let mut lo: i128 = 0;
    let mut hi: i128 = 0;
    proof {
        assert(all.take(0) =~= Seq::<DiceTerm>::empty());
    }
    for i in 0..n
        invariant
            n == all.len(),
            terms@ == all,
            lo == roll_min(all.take(i as int)),
            hi == roll_max(all.take(i as int)),
            lo <= hi,
            forall|j: int| 0 <= j <= i ==> #[trigger] within_i64(all.take(j)),
            forall|j: int|
                0 <= j < i ==> #[trigger] term_dice(all[j]) > 0 ==> (all[j] matches DiceTerm::Dice {
                    sides,
                    ..
                } && sides != 0),
    {
        proof {
            lemma_prefix_step(all, i as int);
            assert(within_i64(all.take(i as int)));
        }
        match terms[i] {
            DiceTerm::Dice { count, sides } => {
                if count > 0 {
                    if sides == 0 {
                        assert(term_dice(all[i as int]) > 0);
                        return false;
                    }
                    let size: u128 = if sides < 0 {
                        (0i128 - sides as i128) as u128
                    } else {
                        sides as u128
                    };
                    let face: u128 = if size < 0x1_0000_0000u128 {
                        size
                    } else {
                        0x1_0000_0000u128
                    };
                    assert(face as int == max_face(sides as int));
                    assert((count as int) * (face as int) <= 9223372036854775807int * 0x1_0000_0000int)
                        by (nonlinear_arith)
                        requires
                            0 < count <= 9223372036854775807int,
                            0 <= face <= 0x1_0000_0000int,
                    ;
                    assert((count as int) <= (count as int) * (face as int)) by (nonlinear_arith)
                        requires
                            0 < count,
                            1 <= face,
                    ;
                    let most: i128 = (count as i128) * (face as i128);
                    assert(most == term_max(all[i as int]));
                    lo = lo + count as i128;
                    hi = hi + most;
                } else {
                    let ghost m = max_face(sides as int);
                    assert(term_dice(all[i as int]) * m == 0) by (nonlinear_arith)
                        requires
                            term_dice(all[i as int]) == 0,
                    ;
                }
            },
            DiceTerm::Flat { value } => {
                lo = lo + value as i128;
                hi = hi + value as i128;
            },
            DiceTerm::Unused => {},
        }
        assert(lo == roll_min(all.take(i + 1)));
        assert(hi == roll_max(all.take(i + 1)));
        if lo < i64::MIN as i128 || hi > i64::MAX as i128 {
            assert(!within_i64(all.take(i + 1)));
            return false;
        }
        assert(within_i64(all.take(i + 1)));
    }
    proof {
        assert(all.take(n as int) =~= all);
    }
    true
}

} // verus!

verus! {

/// Every die shows a face between 1 and its largest face, which is at most
/// its number of sides.
pub proof fn lemma_die_face_range(r: u32, sides: int)
    requires
        sides != 0,
    ensures
        1 <= die_face(r, sides) <= max_face(sides) <= abs(sides),
{
    assert((r as int) % abs(sides) <= r as int) by (nonlinear_arith)
        requires
            abs(sides) > 0,
            r >= 0,
    ;
}

/// The faces of `k` dice of `sides` sides add up to between `k` and `k`
/// times the largest face.
pub proof fn lemma_faces_sum_range(sides: int, draws: Seq<u32>)
    requires
        sides != 0,
    ensures
        draws.len() <= faces_sum(sides, draws) <= draws.len() * max_face(sides),
    decreases draws.len(),
{
    if draws.len() > 0 {
        lemma_faces_sum_range(sides, draws.drop_last());
        lemma_die_face_range(draws.last(), sides);
        lemma_mul_step((draws.len() - 1) as int, max_face(sides));
    }
}

/// Whatever the random numbers drawn, one per die, the total of a roll lies
/// between the least total (flat numbers plus one per die) and the greatest
/// (flat numbers plus the largest face of every die, at most its number of
/// sides).
pub proof fn lemma_roll_total_range(terms: Seq<DiceTerm>, draws: Seq<u32>)
    requires
        draws.len() == dice_count(terms),
        sides_nonzero(terms),
    ensures
        roll_min(terms) <= roll_total(terms, draws) <= roll_max(terms),
    decreases terms.len(),
{
    if terms.len() > 0 {
        let init = terms.drop_last();
        let k = dice_count(init);
        assert forall|i: int|
            0 <= i < init.len() implies #[trigger] term_dice(init[i]) > 0 ==> (init[i] matches DiceTerm::Dice {
                sides,
                ..
            } && sides != 0) by {
            assert(init[i] == terms[i]);
        }
        lemma_roll_total_range(init, draws.take(k as int));
        let t = terms.last();
        assert(term_dice(terms[terms.len() - 1]) == term_dice(t));
        let rest = draws.skip(k as int);
        match t {
            DiceTerm::Dice { count, sides } => {
                if count > 0 {
                    lemma_faces_sum_range(sides as int, rest);
                } else {
                    assert(rest.len() == 0);
                }
            },
            _ => {},
        }
    }
}

} // verus!
