//! Numbers as text: whole numbers, and fixed-point numbers that count
//! thousandths, written as decimals.

use vstd::prelude::*;

verus! {

/// The character of a decimal digit.
pub open spec fn digit_char(d: int) -> char {
    if d == 0 {
        '0'
    } else if d == 1 {
        '1'
    } else if d == 2 {
        '2'
    } else if d == 3 {
        '3'
    } else if d == 4 {
        '4'
    } else if d == 5 {
        '5'
    } else if d == 6 {
        '6'
    } else if d == 7 {
        '7'
    } else if d == 8 {
        '8'
    } else {
        '9'
    }
}

/// The decimal digits of a natural number, without leading zeros.
pub open spec fn natural_text(n: nat) -> Seq<char>
    decreases n,
{
    if n < 10 {
        seq![digit_char(n as int)]
    } else {
        natural_text(n / 10).push(digit_char((n % 10) as int))
    }
}

/// The digits after the decimal point of a number of thousandths between 1
/// and 999: three digits, less the zeros at their end.
pub open spec fn fraction_text(f: nat) -> Seq<char> {
    if f % 100 == 0 {
        seq![digit_char((f / 100) as int)]
    } else if f % 10 == 0 {
        seq![digit_char((f / 100) as int), digit_char(((f / 10) % 10) as int)]
    } else {
        seq![
            digit_char((f / 100) as int),
            digit_char(((f / 10) % 10) as int),
            digit_char((f % 10) as int),
        ]
    }
}

/// The decimal text of a number of thousandths: a minus sign where the
/// number is negative, the whole part, and, where the number is no whole
/// one, a point and the digits after it. So 10500 reads `10.5`, -350 reads
/// `-0.35` and 210000 reads `210`.
pub open spec fn thousandths_text(v: int) -> Seq<char> {
    let m: nat = if v < 0 {
        (-v) as nat
    } else {
        v as nat
    };
    let sign: Seq<char> = if v < 0 {
        seq!['-']
    } else {
        Seq::empty()
    };
    let point: Seq<char> = if m % 1000 == 0 {
        Seq::empty()
    } else {
        seq!['.'] + fraction_text(m % 1000)
    };
    sign + natural_text(m / 1000) + point
}

/// Whether the character is a decimal digit.
pub open spec fn is_digit(c: char) -> bool {
    c == '0' || c == '1' || c == '2' || c == '3' || c == '4' || c == '5' || c == '6' || c == '7'
        || c == '8' || c == '9'
}

/// Two digits with the same character are the same digit.
proof fn lemma_digit_char_injective(x: int, y: int)
    requires
        0 <= x <= 9,
        0 <= y <= 9,
        digit_char(x) == digit_char(y),
    ensures
        x == y,
{
}

/// The text of a natural number holds digits only, and at least one.
pub proof fn lemma_natural_text_digits(n: nat)
    ensures
        natural_text(n).len() >= 1,
        forall|i: int| 0 <= i < natural_text(n).len() ==> is_digit(#[trigger] natural_text(n)[i]),
    decreases n,
{
    if n >= 10 {
        lemma_natural_text_digits(n / 10);
    }
}

/// Two natural numbers with the same text are the same number.
pub proof fn lemma_natural_text_injective(a: nat, b: nat)
    requires
        natural_text(a) == natural_text(b),
    ensures
        a == b,
    decreases a,
{
    if a < 10 && b < 10 {
        assert(natural_text(a)[0] == digit_char(a as int));
        assert(natural_text(b)[0] == digit_char(b as int));
        lemma_digit_char_injective(a as int, b as int);
    } else if a >= 10 && b >= 10 {
        let ta = natural_text(a / 10);
        let tb = natural_text(b / 10);
        let da = digit_char((a % 10) as int);
        let db = digit_char((b % 10) as int);
        assert(natural_text(a) == ta.push(da));
        assert(natural_text(b) == tb.push(db));
        assert(ta.push(da).drop_last() =~= ta);
        assert(tb.push(db).drop_last() =~= tb);
        assert(ta.push(da).last() == da);
        assert(tb.push(db).last() == db);
        assert(ta == tb);
        assert(da == db);
        lemma_natural_text_injective(a / 10, b / 10);
        lemma_digit_char_injective((a % 10) as int, (b % 10) as int);
    } else if a < 10 {
        lemma_natural_text_digits(b / 10);
        assert(natural_text(a).len() == 1);
        assert(natural_text(b).len() == natural_text(b / 10).len() + 1);
    } else {
        lemma_natural_text_digits(a / 10);
        assert(natural_text(b).len() == 1);
        assert(natural_text(a).len() == natural_text(a / 10).len() + 1);
    }
}

/// Two numbers of thousandths between 1 and 999 with the same digits after
/// the point are the same number.
proof fn lemma_fraction_text_injective(f: nat, g: nat)
    requires
        1 <= f <= 999,
        1 <= g <= 999,
        fraction_text(f) == fraction_text(g),
    ensures
        f == g,
{
    let tf = fraction_text(f);
    let tg = fraction_text(g);
    let f0 = digit_char((f / 100) as int);
    let f1 = digit_char(((f / 10) % 10) as int);
    let f2 = digit_char((f % 10) as int);
    let g0 = digit_char((g / 100) as int);
    let g1 = digit_char(((g / 10) % 10) as int);
    let g2 = digit_char((g % 10) as int);
    assert(tf.len() == if f % 100 == 0 { 1nat } else if f % 10 == 0 { 2nat } else { 3nat });
    assert(tg.len() == if g % 100 == 0 { 1nat } else if g % 10 == 0 { 2nat } else { 3nat });
    assert(tf[0] == f0 && tg[0] == g0);
    lemma_digit_char_injective((f / 100) as int, (g / 100) as int);
    if f % 100 != 0 {
        assert(tf[1] == f1 && tg[1] == g1);
        lemma_digit_char_injective(((f / 10) % 10) as int, ((g / 10) % 10) as int);
        if f % 10 != 0 {
            assert(tf[2] == f2 && tg[2] == g2);
            lemma_digit_char_injective((f % 10) as int, (g % 10) as int);
        }
    }
}

/// Digits followed by nothing or by a text that begins with a character
/// that is no digit can be told apart from what follows them: where two
/// such texts are the same, so are their digits and what follows them.
proof fn lemma_digits_end(na: Seq<char>, pa: Seq<char>, nb: Seq<char>, pb: Seq<char>)
    requires
        na + pa == nb + pb,
        forall|i: int| 0 <= i < na.len() ==> is_digit(#[trigger] na[i]),
        forall|i: int| 0 <= i < nb.len() ==> is_digit(#[trigger] nb[i]),
        pa.len() > 0 ==> !is_digit(pa[0]),
        pb.len() > 0 ==> !is_digit(pb[0]),
    ensures
        na == nb,
        pa == pb,
{
    let ra = na + pa;
    let rb = nb + pb;
    assert(ra.len() == na.len() + pa.len());
    assert(rb.len() == nb.len() + pb.len());
    if na.len() < nb.len() {
        let k = na.len() as int;
        assert(rb[k] == nb[k]);
        assert(pa.len() > 0);
        assert(ra[k] == pa[0]);
        assert(false);
    }
    if nb.len() < na.len() {
        let k = nb.len() as int;
        assert(ra[k] == na[k]);
        assert(pb.len() > 0);
        assert(rb[k] == pb[0]);
        assert(false);
    }
    assert(na =~= ra.subrange(0, na.len() as int));
    assert(nb =~= rb.subrange(0, nb.len() as int));
    assert(pa =~= ra.subrange(na.len() as int, ra.len() as int));
    assert(pb =~= rb.subrange(nb.len() as int, rb.len() as int));
}

/// The parts of the decimal text of a number that is not negative: the
/// whole part, and the point with the digits after it.
spec fn point_text(m: nat) -> Seq<char> {
    if m % 1000 == 0 {
        Seq::empty()
    } else {
        seq!['.'] + fraction_text(m % 1000)
    }
}

/// Two numbers that are not negative and have the same decimal text are
/// the same number.
proof fn lemma_unsigned_text_injective(ma: nat, mb: nat)
    requires
        natural_text(ma / 1000) + point_text(ma) == natural_text(mb / 1000) + point_text(mb),
    ensures
        ma == mb,
{
    lemma_natural_text_digits(ma / 1000);
    lemma_natural_text_digits(mb / 1000);
    let pa = point_text(ma);
    let pb = point_text(mb);
    assert(pa.len() > 0 ==> pa[0] == '.');
    assert(pb.len() > 0 ==> pb[0] == '.');
    lemma_digits_end(natural_text(ma / 1000), pa, natural_text(mb / 1000), pb);
    lemma_natural_text_injective(ma / 1000, mb / 1000);
    if ma % 1000 != 0 || mb % 1000 != 0 {
        assert(pa.len() > 0 && pb.len() > 0);
        assert(fraction_text(ma % 1000) =~= pa.subrange(1, pa.len() as int));
        assert(fraction_text(mb % 1000) =~= pb.subrange(1, pb.len() as int));
        lemma_fraction_text_injective(ma % 1000, mb % 1000);
    }
}

/// Two numbers of thousandths with the same decimal text are the same
/// number: the text of a number loses nothing of it.
pub proof fn lemma_thousandths_text_injective(a: int, b: int)
    requires
        thousandths_text(a) == thousandths_text(b),
    ensures
        a == b,
{
    let ma: nat = if a < 0 { (-a) as nat } else { a as nat };
    let mb: nat = if b < 0 { (-b) as nat } else { b as nat };
    let ra = natural_text(ma / 1000) + point_text(ma);
    let rb = natural_text(mb / 1000) + point_text(mb);
    let ta = thousandths_text(a);
    let tb = thousandths_text(b);
    lemma_natural_text_digits(ma / 1000);
    lemma_natural_text_digits(mb / 1000);
    assert(ta =~= if a < 0 { seq!['-'] + ra } else { ra });
    assert(tb =~= if b < 0 { seq!['-'] + rb } else { rb });
    assert(ra[0] == natural_text(ma / 1000)[0]);
    assert(rb[0] == natural_text(mb / 1000)[0]);
    assert(is_digit(ra[0]) && is_digit(rb[0]));
    assert(ta[0] == if a < 0 { '-' } else { ra[0] });
    assert(tb[0] == if b < 0 { '-' } else { rb[0] });
    assert((a < 0) == (b < 0));
    if a < 0 {
        assert(ra =~= ta.subrange(1, ta.len() as int));
        assert(rb =~= tb.subrange(1, tb.len() as int));
    }
    assert(ra == rb);
    lemma_unsigned_text_injective(ma, mb);
}

/// The text of one decimal digit.
fn digit_str(d: u8) -> (s: &'static str)
    requires
        d < 10,
    ensures
        s@ == seq![digit_char(d as int)],
{
    proof {
        reveal_strlit("0");
        reveal_strlit("1");
        reveal_strlit("2");
        reveal_strlit("3");
        reveal_strlit("4");
        reveal_strlit("5");
        reveal_strlit("6");
        reveal_strlit("7");
        reveal_strlit("8");
        reveal_strlit("9");
    }
    let s = if d == 0 {
        "0"
    } else if d == 1 {
        "1"
    } else if d == 2 {
        "2"
    } else if d == 3 {
        "3"
    } else if d == 4 {
        "4"
    } else if d == 5 {
        "5"
    } else if d == 6 {
        "6"
    } else if d == 7 {
        "7"
    } else if d == 8 {
        "8"
    } else {
        "9"
    };
    assert(s@ =~= seq![digit_char(d as int)]);
    s
}

/// Write the decimal digits of a natural number at the end of the text.
pub fn push_natural(text: &mut String, n: u128)
    ensures
        final(text)@ == old(text)@ + natural_text(n as nat),
    decreases n,
{
    if n >= 10 {
        push_natural(text, n / 10);
    }
    text.append(digit_str((n % 10) as u8));
    assert(text@ =~= old(text)@ + natural_text(n as nat));
}

/// Write the decimal text of a number of thousandths at the end of the
/// text.
pub fn push_thousandths(text: &mut String, v: i128)
    requires
        v > i128::MIN,
    ensures
        final(text)@ == old(text)@ + thousandths_text(v as int),
{
    let m: u128 = if v < 0 {
        (-v) as u128
    } else {
        v as u128
    };
    if v < 0 {
        proof {
            reveal_strlit("-");
        }
        text.append("-");
    }
    push_natural(text, m / 1000);
    let f: u128 = m % 1000;
    if f != 0 {
        proof {
            reveal_strlit(".");
        }
        text.append(".");
        text.append(digit_str((f / 100) as u8));
        if f % 100 != 0 {
            text.append(digit_str(((f / 10) % 10) as u8));
            if f % 10 != 0 {
                text.append(digit_str((f % 10) as u8));
            }
        }
    }
    assert(text@ =~= old(text)@ + thousandths_text(v as int));
}

/// The decimal digits of a natural number.
pub fn format_natural(n: u128) -> (text: String)
    ensures
        text@ == natural_text(n as nat),
{
    let mut text = String::new();
    push_natural(&mut text, n);
    assert(text@ =~= natural_text(n as nat));
    text
}

/// The decimal text of a number of thousandths.
pub fn format_thousandths(v: i128) -> (text: String)
    requires
        v > i128::MIN,
    ensures
        text@ == thousandths_text(v as int),
{
    let mut text = String::new();
    push_thousandths(&mut text, v);
    assert(text@ =~= thousandths_text(v as int));
    text
}

} // verus!
