//! The records read from the chart: title identifiers, ratings and movies, and the staged builder
//! that assembles a movie from the fields found one by one.

use vstd::prelude::*;

use crate::text::{
    all_digits, chars_of, digit_value, digits_number, digits_value, is_digit, parse_digits, parse_unsigned,
    string_from_chars, unsigned_digits, unsigned_number,
};

verus! {

/// The decimal digit character for `d`, below ten.
pub open spec fn digit_char(d: nat) -> char {
    if d == 0 {
        '0'
    } else if d == 1 {
        '1'
    } else if d == 2 {
        '2'
    } else if d == 3 {
        '3'
    } else if d == 4 {
        '4'
    } else if d == 5 {
        '5'
    } else if d == 6 {
        '6'
    } else if d == 7 {
        '7'
    } else if d == 8 {
        '8'
    } else {
        '9'
    }
}

/// The decimal digit character for `d`.
fn digit_char_of(d: u32) -> (r: char)
    requires
        d < 10,
    ensures
        r == digit_char(d as nat),
{
    if d == 0 {
        '0'
    } else if d == 1 {
        '1'
    } else if d == 2 {
        '2'
    } else if d == 3 {
        '3'
    } else if d == 4 {
        '4'
    } else if d == 5 {
        '5'
    } else if d == 6 {
        '6'
    } else if d == 7 {
        '7'
    } else if d == 8 {
        '8'
    } else {
        '9'
    }
}

proof fn lemma_decimal_len_bound(n: nat, w: nat)
    requires
        n < pow10(w),
        w >= 1,
    ensures
        decimal_len(n) <= w,
    decreases w,
{
    if n >= 10 {
        assert(w >= 2) by {
            if w == 1 {
                assert(pow10(0) == 1);
            }
        }
        let p = pow10((w - 1) as nat);
        assert(n / 10 < p) by (nonlinear_arith)
            requires
                n < 10 * p,
        ;
        lemma_decimal_len_bound(n / 10, (w - 1) as nat);
    }
}

/// The `w` least significant decimal digits of `n`, most significant first.
pub open spec fn low_digits(n: nat, w: nat) -> Seq<char>
    decreases w,
{
    if w == 0 {
        Seq::empty()
    } else {
        low_digits(n / 10, (w - 1) as nat).push(digit_char(n % 10))
    }
}

/// How many decimal digits `n` has.
pub open spec fn decimal_len(n: nat) -> nat
    decreases n,
{
    if n < 10 {
        1
    } else {
        1 + decimal_len(n / 10)
    }
}

pub open spec fn pow10(w: nat) -> nat
    decreases w,
{
    if w == 0 {
        1
    } else {
        10 * pow10((w - 1) as nat)
    }
}

/// The decimal text of `n`, padded with zeros on the left to at least eight digits.
pub open spec fn padded_decimal(n: nat) -> Seq<char> {
    low_digits(n, if decimal_len(n) < 8 { 8 } else { decimal_len(n) })
}

/// The canonical text of a title identifier: `tt` and its zero-padded number.
pub open spec fn title_id_text(n: nat) -> Seq<char> {
    seq!['t', 't'] + padded_decimal(n)
}

/// The identifier that a text names: its first two characters are a tag, the rest is the number.
pub open spec fn title_id_number(s: Seq<char>) -> Option<nat> {
    if s.len() >= 2 {
        unsigned_number(s.skip(2), u32::MAX as nat)
    } else {
        None
    }
}

proof fn lemma_low_digits_are_digits(n: nat, w: nat)
    ensures
        low_digits(n, w).len() == w,
        all_digits(low_digits(n, w)),
    decreases w,
{
    if w > 0 {
        lemma_low_digits_are_digits(n / 10, (w - 1) as nat);
    }
}

proof fn lemma_low_digits_value(n: nat, w: nat)
    requires
        n < pow10(w),
    ensures
        digits_value(low_digits(n, w)) == n,
    decreases w,
{
    if w > 0 {
        let p = pow10((w - 1) as nat);
        assert(n / 10 < p) by (nonlinear_arith)
            requires
                n < 10 * p,
        ;
        lemma_low_digits_value(n / 10, (w - 1) as nat);
        let s = low_digits(n, w);
        assert(s.drop_last() =~= low_digits(n / 10, (w - 1) as nat));
        assert(digit_value(digit_char(n % 10)) == n % 10);
    } else {
        assert(n == 0);
    }
}

proof fn lemma_below_pow10(n: nat, w: nat)
    requires
        decimal_len(n) <= w,
    ensures
        n < pow10(w),
    decreases n,
{
    if n >= 10 {
        lemma_below_pow10(n / 10, (w - 1) as nat);
    } else {
        assert(pow10(w) >= 10) by {
            assert(w >= 1);
            lemma_pow10_positive((w - 1) as nat);
        }
    }
}

proof fn lemma_pow10_positive(w: nat)
    ensures
        pow10(w) >= 1,
    decreases w,
{
    if w > 0 {
        lemma_pow10_positive((w - 1) as nat);
    }
}

/// The canonical text of an identifier names that identifier again.
pub proof fn lemma_title_id_round_trip(n: u32)
    ensures
        title_id_number(title_id_text(n as nat)) == Some(n as nat),
{
    let w = if decimal_len(n as nat) < 8 { 8 } else { decimal_len(n as nat) };
    let d = low_digits(n as nat, w);
    lemma_low_digits_are_digits(n as nat, w);
    lemma_below_pow10(n as nat, w);
    lemma_low_digits_value(n as nat, w);
    assert(title_id_text(n as nat).skip(2) =~= d);
    assert(is_digit(d[0]));
    assert(unsigned_digits(d) == d);
}

/// How many decimal digits `n` has.
fn decimal_len_of(n: u32) -> (r: usize)
    ensures
        r == decimal_len(n as nat),
        r <= 10,
{
    let mut len: usize = 1;
    let mut m: u32 = n;
    proof {
        reveal_with_fuel(pow10, 11);
        assert(pow10(10) == 10000000000);
        lemma_decimal_len_bound(n as nat, 10);
    }
    while m >= 10
        invariant
            decimal_len(n as nat) == len + decimal_len(m as nat) - 1,
            decimal_len(n as nat) <= 10,
            1 <= len,
        decreases m,
    {
        m = m / 10;
        len = len + 1;
    }
    len
}

/// The `width` least significant decimal digits of `n`, most significant first.
fn decimal_digits(n: u32, width: usize) -> (r: Vec<char>)
    ensures
        r@ == low_digits(n as nat, width as nat),
        r@.len() == width,
{
    let mut digits: Vec<char> = Vec::new();
    let mut k: usize = 0;
    while k < width
        invariant
            k <= width,
            digits@.len() == k,
        decreases width - k,
    {
        digits.push('0');
        k = k + 1;
    }
    let mut rest: u32 = n;
    let mut k: usize = 0;
    while k < width
        invariant
            k <= width,
            digits@.len() == width,
            low_digits(n as nat, width as nat) == low_digits(rest as nat, (width - k) as nat)
                + digits@.subrange(width - k, width as int),
        decreases width - k,
    {
        let ghost before = digits@.subrange(width - k, width as int);
        let d = digit_char_of(rest % 10);
        digits.set(width - 1 - k, d);
        proof {
            assert(digits@.subrange(width - (k + 1), width as int) =~= seq![d] + before);
            assert(low_digits(rest as nat, (width - k) as nat) == low_digits(
                (rest / 10) as nat,
                (width - k - 1) as nat,
            ).push(d));
            assert(low_digits((rest / 10) as nat, (width - k - 1) as nat).push(d) + before
                =~= low_digits((rest / 10) as nat, (width - k - 1) as nat) + (seq![d] + before));
        }
        rest = rest / 10;
        k = k + 1;
    }
    assert(digits@.subrange(0, width as int) =~= digits@);
    digits
}

/// The identifier of a title, such as `tt00027205` for 27205.
#[derive(Clone, Copy, Debug, PartialEq, Eq, Structural)]
pub struct TitleID(pub u32);

impl TitleID {
    /// The canonical text: `tt` followed by the number, zero-padded to eight digits.
    pub fn to_text(&self) -> (r: String)
        ensures
            r@ == title_id_text(self.0 as nat),
    {
        let n = self.0;
        let len = decimal_len_of(n);
        let width: usize = if len < 8 {
            8
        } else {
            len
        };
        let digits = decimal_digits(n, width);
        assert(digits@.subrange(0, width as int) =~= digits@);
        let mut out: Vec<char> = Vec::new();
        out.push('t');
        out.push('t');
        let mut i: usize = 0;
        while i < width
            invariant
                i <= width == digits@.len(),
                out@ == seq!['t', 't'] + digits@.subrange(0, i as int),
            decreases width - i,
        {
            out.push(digits[i]);
            i = i + 1;
            assert(out@ =~= seq!['t', 't'] + digits@.subrange(0, i as int));
        }
        assert(out@ =~= title_id_text(n as nat));
        string_from_chars(out)
    }

    /// The identifier that `s` names: the first two characters are the tag, the rest is the
    /// number in decimal. `None` where there is no such number within `u32`.
    pub fn from_text(s: &str) -> (r: Option<TitleID>)
        ensures
            r matches Some(id) ==> title_id_number(s@) == Some(id.0 as nat),
            r is None ==> title_id_number(s@) is None,
    {
        let c = chars_of(s);
        if c.len() < 2 {
            return None;
        }
        let mut rest: Vec<char> = Vec::new();
        let mut i: usize = 2;
        while i < c.len()
            invariant
                2 <= i <= c.len(),
                rest@ == c@.subrange(2, i as int),
            decreases c.len() - i,
        {
            rest.push(c[i]);
            i = i + 1;
        }
        assert(rest@ =~= s@.skip(2));
        match parse_unsigned(&rest, u32::MAX as u64) {
            Some(v) => Some(TitleID(v as u32)),
            None => None,
        }
    }
}

/// Where the first `.` of `t` stands, or its length where it has none.
pub open spec fn dot_index(t: Seq<char>) -> int
    decreases t.len(),
{
    if t.len() == 0 || t[0] == '.' {
        0
    } else {
        1 + dot_index(t.drop_first())
    }
}

/// The digits of `t` before its first `.`.
pub open spec fn whole_digits(t: Seq<char>) -> Seq<char> {
    t.take(dot_index(t))
}

/// The digits of `t` after its first `.`; none where there is no `.`.
pub open spec fn fraction_digits(t: Seq<char>) -> Seq<char> {
    if dot_index(t) < t.len() {
        t.skip(dot_index(t) + 1)
    } else {
        Seq::empty()
    }
}

/// Whether `s` starts with a sign.
pub open spec fn has_sign(s: Seq<char>) -> bool {
    s.len() > 0 && (s[0] == '+' || s[0] == '-')
}

/// The text of a number without its optional leading sign.
pub open spec fn unsigned_part(s: Seq<char>) -> Seq<char> {
    if has_sign(s) {
        s.drop_first()
    } else {
        s
    }
}

/// The rating that `s` writes: an optional sign, decimal digits, optionally a `.` and more
/// digits, at least one digit in all, and the digits together within `u64`. Exponents, `inf` and
/// `NaN` write no rating.
pub open spec fn rating_number(s: Seq<char>) -> Option<Rating> {
    let t = unsigned_part(s);
    match digits_number(whole_digits(t) + fraction_digits(t), u64::MAX as nat) {
        Some(v) => Some(
            Rating {
                negative: s.len() > 0 && s[0] == '-',
                mantissa: v as u64,
                scale: fraction_digits(t).len() as usize,
            },
        ),
        None => None,
    }
}

proof fn lemma_dot_index(t: Seq<char>, j: int)
    requires
        0 <= j <= t.len(),
        forall|i: int| 0 <= i < j ==> t[i] != '.',
        j == t.len() || t[j] == '.',
    ensures
        dot_index(t) == j,
    decreases j,
{
    if j > 0 {
        lemma_dot_index(t.drop_first(), j - 1);
    }
}

/// A rating exactly as the page writes it in decimal: `mantissa / 10^scale`, negated where
/// `negative`, so that `9.3` is mantissa 93 at scale 1. Only plain decimals are ratings: a text in
/// exponent form, `inf` or `NaN` is refused as unparsable.
#[derive(Clone, Copy, Debug, PartialEq, Eq, Structural)]
pub struct Rating {
    pub negative: bool,
    pub mantissa: u64,
    pub scale: usize,
}

impl Rating {
    /// Reads a rating written in decimal, such as `9.3`; `None` where `s` is no such number.
    pub fn from_text(s: &str) -> (r: Option<Rating>)
        ensures
            r == rating_number(s@),
    {
        let c = chars_of(s);
        let negative = c.len() > 0 && c[0] == '-';
        let start: usize = if c.len() > 0 && (c[0] == '+' || c[0] == '-') {
            1
        } else {
            0
        };
        let ghost t = c@.subrange(start as int, c@.len() as int);
        assert(t =~= unsigned_part(s@));
        let mut k: usize = start;
        while k < c.len() && c[k] != '.'
            invariant
                start <= k <= c.len(),
                forall|i: int| start <= i < k ==> c@[i] != '.',
            decreases c.len() - k,
        {
            k = k + 1;
        }
        proof {
            lemma_dot_index(t, k - start);
        }
        let mut digits: Vec<char> = Vec::new();
        let mut i: usize = start;
        while i < k
            invariant
                start <= i <= k <= c.len(),
                digits@ == c@.subrange(start as int, i as int),
            decreases k - i,
        {
            digits.push(c[i]);
            i = i + 1;
        }
        assert(digits@ =~= whole_digits(t));
        let mut scale: usize = 0;
        if k < c.len() {
            let mut j: usize = k + 1;
            while j < c.len()
                invariant
                    k < j <= c.len(),
                    digits@ == whole_digits(t) + c@.subrange(k + 1, j as int),
                    scale == j - k - 1,
                decreases c.len() - j,
            {
                digits.push(c[j]);
                j = j + 1;
                scale = scale + 1;
                assert(digits@ =~= whole_digits(t) + c@.subrange(k + 1, j as int));
            }
            assert(c@.subrange(k + 1, c@.len() as int) =~= fraction_digits(t));
        } else {
            assert(digits@ =~= whole_digits(t) + fraction_digits(t));
        }
        let n = digits.len();
        assert(digits@.subrange(0, n as int) =~= digits@);
        match parse_digits(&digits, 0, n, u64::MAX) {
            Some(v) => Some(Rating { negative, mantissa: v, scale }),
            None => None,
        }
    }
}

/// One movie of the chart.
#[derive(Clone, Debug, PartialEq)]
pub struct Movie {
    pub id: TitleID,
    pub title: String,
    pub year: u16,
    pub rating: Rating,
    pub votes: u32,
}

/// A movie as a value of its fields' models.
pub struct MovieView {
    pub id: TitleID,
    pub title: Seq<char>,
    pub year: u16,
    pub rating: Rating,
    pub votes: u32,
}

impl View for Movie {
    type V = MovieView;

    open spec fn view(&self) -> MovieView {
        MovieView {
            id: self.id,
            title: self.title@,
            year: self.year,
            rating: self.rating,
            votes: self.votes,
        }
    }
}

/// The text of a movie's title and year: `Title (1994)`.
pub open spec fn movie_text(title: Seq<char>, year: nat) -> Seq<char> {
    title + seq![' ', '('] + low_digits(year, decimal_len(year)) + seq![')']
}

impl Movie {
    /// The title followed by the year in parentheses, such as `The Godfather (1972)`.
    pub fn to_text(&self) -> (r: String)
        ensures
            r@ == movie_text(self.title@, self.year as nat),
    {
        let y = self.year;
        let len = decimal_len_of(y as u32);
        let digits = decimal_digits(y as u32, len);
        assert(digits@.subrange(0, len as int) =~= digits@);
        let title = chars_of(self.title.as_str());
        let mut out: Vec<char> = Vec::new();
        let mut i: usize = 0;
        while i < title.len()
            invariant
                i <= title.len(),
                out@ == title@.subrange(0, i as int),
            decreases title.len() - i,
        {
            out.push(title[i]);
            i = i + 1;
        }
        out.push(' ');
        out.push('(');
        let ghost head = out@;
        let mut i: usize = 0;
        while i < len
            invariant
                i <= len == digits@.len(),
                out@ == head + digits@.subrange(0, i as int),
            decreases len - i,
        {
            out.push(digits[i]);
            i = i + 1;
            assert(out@ =~= head + digits@.subrange(0, i as int));
        }
        out.push(')');
        assert(out@ =~= movie_text(self.title@, y as nat));
        string_from_chars(out)
    }
}

/// A field of a movie.
#[derive(Clone, Copy, Debug, PartialEq, Eq, Structural)]
pub enum Field {
    Id,
    Title,
    Year,
    Rating,
    Votes,
}

/// A movie under construction: one slot per field, each filled when its field is found.
#[derive(Clone, Debug)]
pub struct MovieBuilder {
    pub id: Option<TitleID>,
    pub title: Option<String>,
    pub year: Option<u16>,
    pub rating: Option<Rating>,
    pub votes: Option<u32>,
}

/// `f` alone where `unset`, else nothing.
pub open spec fn field_if(unset: bool, f: Field) -> Seq<Field> {
    if unset {
        seq![f]
    } else {
        Seq::empty()
    }
}

/// The fields whose slots are empty, in the order id, title, year, rating, votes.
pub open spec fn empty_slots(
    no_id: bool,
    no_title: bool,
    no_year: bool,
    no_rating: bool,
    no_votes: bool,
) -> Seq<Field> {
    field_if(no_id, Field::Id) + field_if(no_title, Field::Title) + field_if(no_year, Field::Year)
        + field_if(no_rating, Field::Rating) + field_if(no_votes, Field::Votes)
}

/// The fields whose slots are still empty, in the order id, title, year, rating, votes.
pub open spec fn missing_fields(b: MovieBuilder) -> Seq<Field> {
    empty_slots(b.id is None, b.title is None, b.year is None, b.rating is None, b.votes is None)
}

/// The movie that a builder with every slot filled makes.
pub open spec fn built_movie(b: MovieBuilder) -> MovieView {
    MovieView {
        id: b.id->0,
        title: b.title->0@,
        year: b.year->0,
        rating: b.rating->0,
        votes: b.votes->0,
    }
}

impl MovieBuilder {
    /// A builder with every slot empty.
    pub fn new() -> (r: MovieBuilder)
        ensures
            r.id is None,
            r.title is None,
            r.year is None,
            r.rating is None,
            r.votes is None,
    {
        MovieBuilder { id: None, title: None, year: None, rating: None, votes: None }
    }

    /// Fills the identifier slot.
    pub fn id(&mut self, id: TitleID)
        ensures
            final(self).id == Some(id),
            final(self).title == old(self).title,
            final(self).year == old(self).year,
            final(self).rating == old(self).rating,
            final(self).votes == old(self).votes,
    {
        self.id = Some(id);
    }

    /// Fills the title slot.
    pub fn title(&mut self, title: String)
        ensures
            final(self).id == old(self).id,
            final(self).title == Some(title),
            final(self).year == old(self).year,
            final(self).rating == old(self).rating,
            final(self).votes == old(self).votes,
    {
        self.title = Some(title);
    }

    /// Fills the year slot.
    pub fn year(&mut self, year: u16)
        ensures
            final(self).id == old(self).id,
            final(self).title == old(self).title,
            final(self).year == Some(year),
            final(self).rating == old(self).rating,
            final(self).votes == old(self).votes,
    {
        self.year = Some(year);
    }

    /// Fills the rating slot.
    pub fn rating(&mut self, rating: Rating)
        ensures
            final(self).id == old(self).id,
            final(self).title == old(self).title,
            final(self).year == old(self).year,
            final(self).rating == Some(rating),
            final(self).votes == old(self).votes,
    {
        self.rating = Some(rating);
    }

    /// Fills the vote-count slot.
    pub fn votes(&mut self, votes: u32)
        ensures
            final(self).id == old(self).id,
            final(self).title == old(self).title,
            final(self).year == old(self).year,
            final(self).rating == old(self).rating,
            final(self).votes == Some(votes),
    {
        self.votes = Some(votes);
    }

    /// The finished movie, or the fields whose slots are still empty.
    pub fn build(&self) -> (r: Result<Movie, Vec<Field>>)
        ensures
            missing_fields(*self).len() == 0 <==> r is Ok,
            r matches Ok(m) ==> m@ == built_movie(*self),
            r matches Err(fields) ==> fields@ == missing_fields(*self),
    {
        let mut missing: Vec<Field> = Vec::new();
        if self.id.is_none() {
            missing.push(Field::Id);
        }
        if self.title.is_none() {
            missing.push(Field::Title);
        }
        if self.year.is_none() {
            missing.push(Field::Year);
        }
        if self.rating.is_none() {
            missing.push(Field::Rating);
        }
        if self.votes.is_none() {
            missing.push(Field::Votes);
        }
        assert(missing@ =~= missing_fields(*self));
        match (&self.id, &self.title, self.year, self.rating, self.votes) {
            (Some(id), Some(title), Some(year), Some(rating), Some(votes)) => Ok(
                Movie { id: *id, title: title.clone(), year, rating, votes },
            ),
            _ => Err(missing),
        }
    }
}

} // verus!
