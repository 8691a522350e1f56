use vstd::prelude::*;

verus! {

/// The decimal digit character for `d < 10`.
pub open spec fn digit_char(d: nat) -> char {
    seq!['0', '1', '2', '3', '4', '5', '6', '7', '8', '9'][d as int]
}

/// The decimal digits of `n`, left-padded with zeros to at least `width` characters.
pub open spec fn padded_decimal(n: nat, width: nat) -> Seq<char>
    decreases n + width,
{
    if n < 10 && width <= 1 {
        seq![digit_char(n)]
    } else {
        padded_decimal(n / 10, if width > 0 {
            (width - 1) as nat
        } else {
            0
        }).push(digit_char(n % 10))
    }
}

/// The file name a frame is saved under: `render`, the index padded to three
/// digits, and `.png` (frame 7 is `render007.png`).
pub open spec fn frame_name(index: nat) -> Seq<char> {
    "render"@ + padded_decimal(index, 3) + ".png"@
}

fn digit_str(d: u32) -> (s: &'static str)
    requires
        d < 10,
    ensures
        s@ == seq![digit_char(d as nat)],
{
    proof {
        reveal_strlit("0");
        reveal_strlit("1");
        reveal_strlit("2");
        reveal_strlit("3");
        reveal_strlit("4");
        reveal_strlit("5");
        reveal_strlit("6");
        reveal_strlit("7");
        reveal_strlit("8");
        reveal_strlit("9");
    }
    let s = if d == 0 {
        "0"
    } else if d == 1 {
        "1"
    } else if d == 2 {
        "2"
    } else if d == 3 {
        "3"
    } else if d == 4 {
        "4"
    } else if d == 5 {
        "5"
    } else if d == 6 {
        "6"
    } else if d == 7 {
        "7"
    } else if d == 8 {
        "8"
    } else {
        "9"
    };
    assert(s@ =~= seq![digit_char(d as nat)]);
    s
}

fn append_padded(out: &mut String, n: u32, width: u32)
    ensures
        final(out)@ == old(out)@ + padded_decimal(n as nat, width as nat),
    decreases n + width,
{
    if n < 10 && width <= 1 {
        out.append(digit_str(n));
    } else {
        let w = if width > 0 {
            width - 1
        } else {
            0
        };
        append_padded(out, n / 10, w);
        out.append(digit_str(n % 10));
        assert(final(out)@ =~= old(out)@ + padded_decimal(n as nat, width as nat));
    }
}

/// The name of the file that frame `index` is saved under.
pub fn frame_file_name(index: u32) -> (s: String)
    ensures
        s@ == frame_name(index as nat),
{
    let mut s = String::from_str("render");
    append_padded(&mut s, index, 3);
    s.append(".png");
    assert(s@ =~= frame_name(index as nat));
    s
}

proof fn lemma_padded_decimal_nonempty(n: nat, width: nat)
    ensures
        padded_decimal(n, width).len() >= 1,
    decreases n + width,
{
    if !(n < 10 && width <= 1) {
        lemma_padded_decimal_nonempty(n / 10, if width > 0 {
            (width - 1) as nat
        } else {
            0
        });
    }
}

proof fn lemma_digit_char_injective(a: nat, b: nat)
    requires
        a < 10,
        b < 10,
        digit_char(a) == digit_char(b),
    ensures
        a == b,
{
    let ds = seq!['0', '1', '2', '3', '4', '5', '6', '7', '8', '9'];
    assert(ds[0] == '0' && ds[1] == '1' && ds[2] == '2' && ds[3] == '3' && ds[4] == '4');
    assert(ds[5] == '5' && ds[6] == '6' && ds[7] == '7' && ds[8] == '8' && ds[9] == '9');
}

proof fn lemma_padded_decimal_injective(n: nat, m: nat, width: nat)
    requires
        padded_decimal(n, width) == padded_decimal(m, width),
    ensures
        n == m,
    decreases n + width,
{
    let w1: nat = if width > 0 {
        (width - 1) as nat
    } else {
        0
    };
    let pn = padded_decimal(n, width);
    if n < 10 && width <= 1 {
        if !(m < 10) {
            lemma_padded_decimal_nonempty(m / 10, w1);
        } else {
            assert(pn[0] == digit_char(n));
            lemma_digit_char_injective(n, m);
        }
    } else if m < 10 && width <= 1 {
        lemma_padded_decimal_nonempty(n / 10, w1);
    } else {
        assert(pn.drop_last() == padded_decimal(n / 10, w1));
        assert(padded_decimal(m, width).drop_last() == padded_decimal(m / 10, w1));
        lemma_padded_decimal_injective(n / 10, m / 10, w1);
        assert(pn.last() == digit_char(n % 10));
        assert(padded_decimal(m, width).last() == digit_char(m % 10));
        lemma_digit_char_injective(n % 10, m % 10);
    }
}

/// Distinct frames are saved under distinct file names.
pub proof fn lemma_frame_names_distinct(i: nat, j: nat)
    requires
        i != j,
    ensures
        frame_name(i) != frame_name(j),
{
    if frame_name(i) == frame_name(j) {
        let a = padded_decimal(i, 3);
        let b = padded_decimal(j, 3);
        reveal_strlit("render");
        reveal_strlit(".png");
        assert("render"@.len() == 6);
        assert(".png"@.len() == 4);
        assert(frame_name(i).len() == 10 + a.len());
        assert(frame_name(j).len() == 10 + b.len());
        assert(a.len() == b.len());
        assert(a =~= frame_name(i).subrange(6, 6 + a.len() as int));
        assert(b =~= frame_name(j).subrange(6, 6 + b.len() as int));
        lemma_padded_decimal_injective(i, j, 3);
    }
}

} // verus!
