use vstd::prelude::*;
use crate::heap::{AggregateView, Heap, array_at, dictionary_at};
use crate::runtime::Host;
use crate::variant::Variant;

verus! {

pub open spec fn digit_char(d: int) -> char {
    if d == 0 {
        '0'
    } else if d == 1 {
        '1'
    } else if d == 2 {
        '2'
    } else if d == 3 {
        '3'
    } else if d == 4 {
        '4'
    } else if d == 5 {
        '5'
    } else if d == 6 {
        '6'
    } else if d == 7 {
        '7'
    } else if d == 8 {
        '8'
    } else {
        '9'
    }
}

/// The decimal digits of `n`, most significant first.
pub open spec fn digits(n: nat) -> Seq<char>
    decreases n,
{
    if n < 10 {
        seq![digit_char(n as int)]
    } else {
        digits(n / 10).push(digit_char((n % 10) as int))
    }
}

/// `i` in decimal, with a leading `-` when it is negative.
pub open spec fn decimal(i: int) -> Seq<char> {
    if i < 0 {
        seq!['-'] + digits((-i) as nat)
    } else {
        digits(i as nat)
    }
}

/// The display form of a value, following aggregates to `depth` levels; an
/// aggregate nested deeper shows as `[...]` or `{...}`. The form of a float is
/// the host's, so it is left empty here: `float_free` marks the values whose
/// form this function gives exactly.
pub open spec fn display(heap: Seq<AggregateView>, v: Variant, depth: nat) -> Seq<char>
    decreases depth, 0nat, 0nat,
{
    match v {
        Variant::Null => seq!['n', 'u', 'l', 'l'],
        Variant::Integer(i) => decimal(i as int),
        Variant::Float(_) => Seq::empty(),
        Variant::String(s) => s@,
        Variant::Boolean(b) => if b {
            seq!['t', 'r', 'u', 'e']
        } else {
            seq!['f', 'a', 'l', 's', 'e']
        },
        Variant::SymbolReference(s) => seq!['G', 'l', 'o', 'b', 'a', 'l', 'R', 'e', 'f', 'e', 'r', 'e', 'n', 'c', 'e', '(']
            + s@ + seq![')'],
        Variant::Index(i) => seq!['I', 'n', 'd', 'e', 'x', '('] + decimal(i as int) + seq![')'],
        Variant::Array(h) => if depth > 0 && array_at(heap, h) is Some {
            seq!['['] + join_items(heap, array_at(heap, h).unwrap(), (depth - 1) as nat) + seq![']']
        } else {
            seq!['[', '.', '.', '.', ']']
        },
        Variant::Dictionary(h) => if depth > 0 && dictionary_at(heap, h) is Some {
            seq!['{'] + join_entries(heap, dictionary_at(heap, h).unwrap(), (depth - 1) as nat) + seq![
                '}',
            ]
        } else {
            seq!['{', '.', '.', '.', '}']
        },
    }
}

/// The display forms of `xs`, separated by `, `.
pub open spec fn join_items(heap: Seq<AggregateView>, xs: Seq<Variant>, depth: nat) -> Seq<char>
    decreases depth, 1nat, xs.len(),
{
    if xs.len() == 0 {
        Seq::empty()
    } else if xs.len() == 1 {
        display(heap, xs[0], depth)
    } else {
        join_items(heap, xs.drop_last(), depth) + seq![',', ' '] + display(heap, xs.last(), depth)
    }
}

/// The entries of a dictionary as `key: value`, separated by `, `.
pub open spec fn join_entries(heap: Seq<AggregateView>, es: Seq<(Variant, Variant)>, depth: nat) -> Seq<
    char,
>
    decreases depth, 1nat, es.len(),
{
    if es.len() == 0 {
        Seq::empty()
    } else {
        let last = display(heap, es.last().0, depth) + seq![':', ' '] + display(heap, es.last().1, depth);
        if es.len() == 1 {
            last
        } else {
            join_entries(heap, es.drop_last(), depth) + seq![',', ' '] + last
        }
    }
}

/// Whether no float shows in the display form of `v`.
pub open spec fn float_free(heap: Seq<AggregateView>, v: Variant, depth: nat) -> bool
    decreases depth, 0nat, 0nat,
{
    match v {
        Variant::Float(_) => false,
        Variant::Array(h) => depth > 0 && array_at(heap, h) is Some ==> items_float_free(
            heap,
            array_at(heap, h).unwrap(),
            (depth - 1) as nat,
        ),
        Variant::Dictionary(h) => depth > 0 && dictionary_at(heap, h) is Some ==> entries_float_free(
            heap,
            dictionary_at(heap, h).unwrap(),
            (depth - 1) as nat,
        ),
        _ => true,
    }
}

pub open spec fn items_float_free(heap: Seq<AggregateView>, xs: Seq<Variant>, depth: nat) -> bool
    decreases depth, 1nat, xs.len(),
{
    xs.len() == 0 || (items_float_free(heap, xs.drop_last(), depth) && float_free(heap, xs.last(), depth))
}

pub open spec fn entries_float_free(heap: Seq<AggregateView>, es: Seq<(Variant, Variant)>, depth: nat) -> bool
    decreases depth, 1nat, es.len(),
{
    es.len() == 0 || (entries_float_free(heap, es.drop_last(), depth) && float_free(heap, es.last().0, depth)
        && float_free(heap, es.last().1, depth))
}

fn digit_text(d: u64) -> (r: &'static str)
    requires
        d < 10,
    ensures
        r@ == seq![digit_char(d as int)],
{
    proof {
        reveal_strlit("0");
        reveal_strlit("1");
        reveal_strlit("2");
        reveal_strlit("3");
        reveal_strlit("4");
        reveal_strlit("5");
        reveal_strlit("6");
        reveal_strlit("7");
        reveal_strlit("8");
        reveal_strlit("9");
    }
    if d == 0 {
        "0"
    } else if d == 1 {
        "1"
    } else if d == 2 {
        "2"
    } else if d == 3 {
        "3"
    } else if d == 4 {
        "4"
    } else if d == 5 {
        "5"
    } else if d == 6 {
        "6"
    } else if d == 7 {
        "7"
    } else if d == 8 {
        "8"
    } else {
        "9"
    }
}

/// Appends the decimal digits of `n`.
pub fn append_digits(out: &mut String, n: u64)
    ensures
        final(out)@ == old(out)@ + digits(n as nat),
    decreases n,
{
    if n >= 10 {
        append_digits(out, n / 10);
    }
    out.append(digit_text(n % 10));
    assert(final(out)@ =~= old(out)@ + digits(n as nat));
}

/// Appends `i` in decimal.
pub fn append_decimal(out: &mut String, i: i64)
    ensures
        final(out)@ == old(out)@ + decimal(i as int),
{
    if i < 0 {
        proof {
            reveal_strlit("-");
        }
        out.append("-");
        let magnitude: u64 = (0 - (i as i128)) as u64;
        append_digits(out, magnitude);
        assert(final(out)@ =~= old(out)@ + decimal(i as int));
    } else {
        append_digits(out, i as u64);
    }
}

/// `i` in decimal.
pub fn integer_text(i: i64) -> (r: String)
    ensures
        r@ == decimal(i as int),
{
    let mut out = String::new();
    append_decimal(&mut out, i);
    assert(out@ =~= decimal(i as int));
    out
}

impl Heap {
    /// The display form of `v`, at full depth; `host` renders floats. Exact for
    /// values in which no float shows.
    pub fn display<H: Host>(&self, v: &Variant, host: &H) -> (r: String)
        ensures
            float_free(self@, *v, self@.len()) ==> r@ == display(self@, *v, self@.len()),
    {
        let mut out = String::new();
        self.append_display(&mut out, v, self.objects.len(), host);
        assert(out@ =~= Seq::<char>::empty() + out@);
        out
    }

    /// The line that `Print` writes for `v`: its display form and a newline.
    pub fn print_line<H: Host>(&self, v: &Variant, host: &H) -> (r: String)
        ensures
            float_free(self@, *v, self@.len()) ==> r@ == display(self@, *v, self@.len()) + seq!['\n'],
    {
        let mut line = self.display(v, host);
        proof {
            reveal_strlit("\n");
        }
        line.append("\n");
        line
    }

    fn append_display<H: Host>(&self, out: &mut String, v: &Variant, depth: usize, host: &H)
        ensures
            float_free(self@, *v, depth as nat) ==> final(out)@ == old(out)@ + display(self@, *v, depth as nat),
        decreases depth, 0nat, 0nat,
    {
        let ghost start = out@;
        match v {
            Variant::Null => {
                proof {
                    reveal_strlit("null");
                }
                out.append("null");
            },
            Variant::Integer(i) => {
                append_decimal(out, *i);
            },
            Variant::Float(bits) => {
                let text = host.float_text(*bits);
                out.append(text.as_str());
            },
            Variant::String(s) => {
                out.append(s.as_str());
            },
            Variant::Boolean(b) => {
                proof {
                    reveal_strlit("true");
                    reveal_strlit("false");
                }
                if *b {
                    out.append("true");
                } else {
                    out.append("false");
                }
            },
            Variant::SymbolReference(s) => {
                proof {
                    reveal_strlit("GlobalReference(");
                    reveal_strlit(")");
                }
                out.append("GlobalReference(");
                out.append(s.as_str());
                out.append(")");
            },
            Variant::Index(i) => {
                proof {
                    reveal_strlit("Index(");
                    reveal_strlit(")");
                }
                out.append("Index(");
                append_digits(out, *i as u64);
                out.append(")");
                assert(decimal(*i as int) == digits(*i as nat));
            },
            Variant::Array(h) => {
                proof {
                    reveal_strlit("[");
                    reveal_strlit("]");
                    reveal_strlit("[...]");
                }
                match self.array(*h) {
                    Some(items) => {
                        if depth == 0 {
                            out.append("[...]");
                        } else {
                            out.append("[");
                            self.append_items(out, items, depth - 1, host);
                            out.append("]");
                        }
                    },
                    None => {
                        out.append("[...]");
                    },
                }
            },
            Variant::Dictionary(h) => {
                proof {
                    reveal_strlit("{");
                    reveal_strlit("}");
                    reveal_strlit("{...}");
                }
                match self.dictionary(*h) {
                    Some(entries) => {
                        if depth == 0 {
                            out.append("{...}");
                        } else {
                            out.append("{");
                            self.append_entries(out, entries, depth - 1, host);
                            out.append("}");
                        }
                    },
                    None => {
                        out.append("{...}");
                    },
                }
            },
        }
        assert(float_free(self@, *v, depth as nat) ==> final(out)@ =~= start + display(self@, *v, depth as nat));
    }

    fn append_items<H: Host>(&self, out: &mut String, xs: &Vec<Variant>, depth: usize, host: &H)
        ensures
            items_float_free(self@, xs@, depth as nat) ==> final(out)@ == old(out)@ + join_items(self@, xs@, depth as nat),
        decreases depth, 1nat, xs.len() + 1,
    {
        proof {
            reveal_strlit(", ");
        }
        let ghost start = out@;
        let mut i: usize = 0;
        while i < xs.len()
            invariant
                i <= xs.len(),
                items_float_free(self@, xs@.take(i as int), depth as nat) ==> out@ == start + join_items(
                    self@,
                    xs@.take(i as int),
                    depth as nat,
                ),
            decreases xs.len() - i,
        {
            let ghost before = out@;
            assert(xs@.take(i + 1).drop_last() =~= xs@.take(i as int));
            assert(xs@.take(i + 1).last() == xs@[i as int]);
            if i > 0 {
                out.append(", ");
            }
            self.append_display(out, &xs[i], depth, host);
            proof {
                if items_float_free(self@, xs@.take(i + 1), depth as nat) {
                    assert(items_float_free(self@, xs@.take(i as int), depth as nat));
                    assert(float_free(self@, xs@[i as int], depth as nat));
                    assert(before == start + join_items(self@, xs@.take(i as int), depth as nat));
                    if i == 0 {
                        assert(xs@.take(1) =~= seq![xs@[0]]);
                        assert(join_items(self@, xs@.take(0), depth as nat) =~= Seq::<char>::empty());
                        assert(out@ =~= start + join_items(self@, xs@.take(i + 1), depth as nat));
                    } else {
                        reveal_strlit(", ");
                        assert(", "@ =~= seq![',', ' ']);
                        assert(out@ =~= start + join_items(self@, xs@.take(i + 1), depth as nat));
                    }
                }
            }
            i = i + 1;
        }
        assert(xs@.take(i as int) =~= xs@);
    }

    fn append_entries<H: Host>(&self, out: &mut String, es: &Vec<(Variant, Variant)>, depth: usize, host: &H)
        ensures
            entries_float_free(self@, es@, depth as nat) ==> final(out)@ == old(out)@ + join_entries(self@, es@, depth as nat),
        decreases depth, 1nat, es.len() + 1,
    {
        proof {
            reveal_strlit(", ");
            reveal_strlit(": ");
        }
        let ghost start = out@;
        let mut i: usize = 0;
        while i < es.len()
            invariant
                i <= es.len(),
                entries_float_free(self@, es@.take(i as int), depth as nat) ==> out@ == start + join_entries(
                    self@,
                    es@.take(i as int),
                    depth as nat,
                ),
            decreases es.len() - i,
        {
            let ghost before = out@;
            assert(es@.take(i + 1).drop_last() =~= es@.take(i as int));
            assert(es@.take(i + 1).last() == es@[i as int]);
            if i > 0 {
                out.append(", ");
            }
            self.append_display(out, &es[i].0, depth, host);
            out.append(": ");
            self.append_display(out, &es[i].1, depth, host);
            proof {
                if entries_float_free(self@, es@.take(i + 1), depth as nat) {
                    assert(entries_float_free(self@, es@.take(i as int), depth as nat));
                    assert(float_free(self@, es@[i as int].0, depth as nat));
                    assert(float_free(self@, es@[i as int].1, depth as nat));
                    assert(before == start + join_entries(self@, es@.take(i as int), depth as nat));
                    reveal_strlit(", ");
                    reveal_strlit(": ");
                    assert(", "@ =~= seq![',', ' ']);
                    assert(": "@ =~= seq![':', ' ']);
                    if i == 0 {
                        assert(join_entries(self@, es@.take(0), depth as nat) =~= Seq::<char>::empty());
                        assert(out@ =~= start + join_entries(self@, es@.take(i + 1), depth as nat));
                    } else {
                        assert(out@ =~= start + join_entries(self@, es@.take(i + 1), depth as nat));
                    }
                }
            }
            i = i + 1;
        }
        assert(es@.take(i as int) =~= es@);
    }
}

} // verus!
