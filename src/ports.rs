//! Reading the requested ports from one line of text.
//!
//! The line is split into words at whitespace; every word that reads as a
//! decimal number from 0 to 65535 is a requested port, and every other word
//! is dropped without complaint.

use vstd::prelude::*;

verus! {

/// The characters with the Unicode `White_Space` property, which separate
/// words.
pub open spec fn is_space(c: char) -> bool {
    let v = c as u32;
    (0x9 <= v <= 0xd) || v == 0x20 || v == 0x85 || v == 0xa0 || v == 0x1680
        || (0x2000 <= v <= 0x200a) || v == 0x2028 || v == 0x2029 || v == 0x202f
        || v == 0x205f || v == 0x3000
}

pub open spec fn is_digit(c: char) -> bool {
    '0' <= c <= '9'
}

/// The number that a run of decimal digits denotes.
pub open spec fn digits_value(d: Seq<char>) -> nat
    decreases d.len(),
{
    if d.len() == 0 {
        0
    } else {
        digits_value(d.drop_last()) * 10 + (d.last() as u32 - '0' as u32) as nat
    }
}

/// A word without its optional leading plus sign.
pub open spec fn unsigned_part(w: Seq<char>) -> Seq<char> {
    if w.len() > 0 && w[0] == '+' {
        w.drop_first()
    } else {
        w
    }
}

/// The port that a word names: an optional `+` and then one or more decimal
/// digits whose value fits in 16 bits. Any other word names none.
pub open spec fn port_value(w: Seq<char>) -> Option<u16> {
    let d = unsigned_part(w);
    if d.len() > 0 && (forall|i: int| 0 <= i < d.len() ==> is_digit(#[trigger] d[i]))
        && digits_value(d) <= 65535 {
        Some(digits_value(d) as u16)
    } else {
        None
    }
}

/// The words of `s` in order, where `cur` holds the characters of a word
/// that began before `s`.
pub open spec fn words_after(cur: Seq<char>, s: Seq<char>) -> Seq<Seq<char>>
    decreases s.len(),
{
    let done = if cur.len() == 0 { Seq::<Seq<char>>::empty() } else { seq![cur] };
    if s.len() == 0 {
        done
    } else if is_space(s[0]) {
        done + words_after(Seq::empty(), s.drop_first())
    } else {
        words_after(cur.push(s[0]), s.drop_first())
    }
}

/// The maximal runs of non-whitespace characters of `s`, in order.
pub open spec fn words(s: Seq<char>) -> Seq<Seq<char>> {
    words_after(Seq::empty(), s)
}

/// The ports named by a sequence of words, in order, skipping the words
/// that name none.
pub open spec fn ports_of_words(ws: Seq<Seq<char>>) -> Seq<u16>
    decreases ws.len(),
{
    if ws.len() == 0 {
        Seq::empty()
    } else {
        let head = match port_value(ws[0]) {
            Some(p) => seq![p],
            None => Seq::<u16>::empty(),
        };
        head + ports_of_words(ws.drop_first())
    }
}

/// The requested ports of an input line.
pub open spec fn ports_of_line(s: Seq<char>) -> Seq<u16> {
    ports_of_words(words(s))
}

proof fn lemma_ports_of_words_append(a: Seq<Seq<char>>, b: Seq<Seq<char>>)
    ensures
        ports_of_words(a + b) == ports_of_words(a) + ports_of_words(b),
    decreases a.len(),
{
    if a.len() == 0 {
        assert(a + b =~= b);
        assert(ports_of_words(a) + ports_of_words(b) =~= ports_of_words(b));
    } else {
        assert((a + b).drop_first() =~= a.drop_first() + b);
        lemma_ports_of_words_append(a.drop_first(), b);
        assert((a + b)[0] == a[0]);
        let head = match port_value(a[0]) {
            Some(p) => seq![p],
            None => Seq::<u16>::empty(),
        };
        assert(head + (ports_of_words(a.drop_first()) + ports_of_words(b)) =~= (head
            + ports_of_words(a.drop_first())) + ports_of_words(b));
    }
}

proof fn lemma_ports_of_one_word(w: Seq<char>)
    ensures
        ports_of_words(seq![w]) == match port_value(w) {
            Some(p) => seq![p],
            None => Seq::<u16>::empty(),
        },
{
    assert(seq![w].drop_first() =~= Seq::<Seq<char>>::empty());
    assert(ports_of_words(Seq::<Seq<char>>::empty()) == Seq::<u16>::empty());
    assert(seq![w][0] == w);
    match port_value(w) {
        Some(p) => assert(seq![p] + Seq::<u16>::empty() =~= seq![p]),
        None => assert(Seq::<u16>::empty() + Seq::<u16>::empty() =~= Seq::<u16>::empty()),
    }
}

fn is_space_char(c: char) -> (r: bool)
    ensures
        r == is_space(c),
{
    let v = c as u32;
    (0x9 <= v && v <= 0xd) || v == 0x20 || v == 0x85 || v == 0xa0 || v == 0x1680
        || (0x2000 <= v && v <= 0x200a) || v == 0x2028 || v == 0x2029 || v == 0x202f
        || v == 0x205f || v == 0x3000
}

/// Reads one word as a port number.
pub fn parse_port(w: &Vec<char>) -> (r: Option<u16>)
    ensures
        r == port_value(w@),
{
    let start: usize = if w.len() > 0 && w[0] == '+' { 1 } else { 0 };
    let ghost d = unsigned_part(w@);
    assert(d =~= w@.skip(start as int));
    if start == w.len() {
        return None;
    }
    // `acc` is the value read so far, held at 65536 once it passes 65535.
    let mut acc: u32 = 0;
    let mut i: usize = start;
    while i < w.len()
        invariant
            start <= i <= w.len(),
            d == unsigned_part(w@),
            d == w@.skip(start as int),
            forall|k: int| 0 <= k < i - start ==> is_digit(#[trigger] d[k]),
            acc == if digits_value(d.take(i - start)) > 65535 {
                65536
            } else {
                digits_value(d.take(i - start))
            },
        decreases w.len() - i,
    {
        let c = w[i];
        if c < '0' || c > '9' {
            assert(d[i - start] == c);
            assert(!is_digit(d[i - start]));
            return None;
        }
        let ghost prev = d.take(i - start);
        assert(d.take(i - start + 1).drop_last() =~= prev);
        assert(d.take(i - start + 1).last() == c);
        let v = c as u32 - '0' as u32;
        if acc > 65535 {
            assert(digits_value(prev) * 10 + v as nat >= digits_value(prev)) by (nonlinear_arith);
        } else {
            acc = acc * 10 + v;
            if acc > 65535 {
                acc = 65536;
            }
        }
        i += 1;
    }
    assert(d.take(i - start) =~= d);
    if acc > 65535 {
        None
    } else {
        Some(acc as u16)
    }
}

/// The requested ports of one input line: the value of every word that
/// names a port, in the order of the line, with repeats kept.
pub fn parse_ports(line: &str) -> (ports: Vec<u16>)
    ensures
        ports@ == ports_of_line(line@),
{
    let n = line.unicode_len();
    let ghost s = line@;
    let mut ports: Vec<u16> = Vec::new();
    let mut cur: Vec<char> = Vec::new();
    let mut i: usize = 0;
    assert(s.skip(0) =~= s);
    while i < n
        invariant
            n == s.len(),
            s == line@,
            0 <= i <= n,
            ports@ + ports_of_words(words_after(cur@, s.skip(i as int))) == ports_of_line(s),
        decreases n - i,
    {
        let c = line.get_char(i);
        let ghost rest = s.skip(i as int);
        assert(rest[0] == c);
        assert(rest.drop_first() =~= s.skip(i + 1 as int));
        if is_space_char(c) {
            let ghost done = if cur@.len() == 0 {
                Seq::<Seq<char>>::empty()
            } else {
                seq![cur@]
            };
            proof {
                lemma_ports_of_words_append(done, words_after(Seq::empty(), s.skip(i + 1 as int)));
            }
            if cur.len() > 0 {
                let ghost before = ports@;
                match parse_port(&cur) {
                    Some(p) => {
                        ports.push(p);
                    },
                    None => {},
                }
                proof {
                    lemma_ports_of_one_word(cur@);
                }
                assert(ports@ =~= before + ports_of_words(done));
            } else {
                assert(ports_of_words(done) =~= Seq::<u16>::empty());
            }
            cur = Vec::new();
            assert(cur@ =~= Seq::<char>::empty());
        } else {
            cur.push(c);
        }
        i += 1;
    }
    let ghost done = if cur@.len() == 0 {
        Seq::<Seq<char>>::empty()
    } else {
        seq![cur@]
    };
    assert(words_after(cur@, s.skip(i as int)) == done);
    let ghost before = ports@;
    if cur.len() > 0 {
        match parse_port(&cur) {
            Some(p) => {
                ports.push(p);
            },
            None => {},
        }
        proof {
            lemma_ports_of_one_word(cur@);
        }
        assert(ports@ =~= before + ports_of_words(done));
    } else {
        assert(ports@ =~= before + ports_of_words(done));
    }
    ports
}

} // verus!
