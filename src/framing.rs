use vstd::prelude::*;

verus! {

/// A message as it goes on the wire: the payload followed by one newline.
pub open spec fn framed(m: Seq<char>) -> Seq<char> {
    m.push('\n')
}

/// Appends the single framing newline to a message.
pub fn frame_message(message: &String) -> (r: String)
    ensures
        r@ == framed(message@),
{
    let mut r = message.clone();
    let nl = "\n";
    proof {
        reveal_strlit("\n");
    }
    r.append(nl);
    assert(r@ =~= framed(message@));
    r
}


/// Length of the first line of `s`, its newline included; all of `s` when it holds none.
pub open spec fn first_line_len(s: Seq<char>) -> nat
    decreases s.len(),
{
    if s.len() == 0 {
        0
    } else if s[0] == '\n' {
        1
    } else {
        1 + first_line_len(s.drop_first())
    }
}

/// The lines that a line reader takes from `s`, one after the other, each as read.
pub open spec fn lines(s: Seq<char>) -> Seq<Seq<char>>
    decreases s.len(),
{
    let k = first_line_len(s);
    if s.len() == 0 {
        Seq::empty()
    } else if 0 < k <= s.len() {
        seq![s.take(k as int)] + lines(s.skip(k as int))
    } else {
        seq![s]
    }
}

/// What a process that echoes its input writes back after messages `ms`, in order.
pub open spec fn stream(ms: Seq<Seq<char>>) -> Seq<char>
    decreases ms.len(),
{
    if ms.len() == 0 {
        Seq::empty()
    } else {
        framed(ms[0]) + stream(ms.drop_first())
    }
}

/// A line without its trailing newline.
pub open spec fn line_body(l: Seq<char>) -> Seq<char> {
    if l.len() > 0 && l.last() == '\n' {
        l.drop_last()
    } else {
        l
    }
}

proof fn lemma_first_line_of_framed(m: Seq<char>, rest: Seq<char>)
    requires
        !m.contains('\n'),
    ensures
        first_line_len(framed(m) + rest) == m.len() + 1,
    decreases m.len(),
{
    let s = framed(m) + rest;
    if m.len() > 0 {
        assert(s[0] == m[0]);
        assert(!m.drop_first().contains('\n')) by {
            if m.drop_first().contains('\n') {
                let i = choose|i: int| 0 <= i < m.drop_first().len() && m.drop_first()[i] == '\n';
                assert(m[i + 1] == '\n');
            }
        }
        assert(s.drop_first() =~= framed(m.drop_first()) + rest);
        lemma_first_line_of_framed(m.drop_first(), rest);
    } else {
        assert(s[0] == '\n');
    }
}

/// Messages without newlines, sent in order to a process that echoes each line, come back
/// from successive line reads in the same order, each as its framed form, and dropping the
/// newline gives back the message exactly.
pub proof fn lemma_round_trip_framing(ms: Seq<Seq<char>>)
    requires
        forall|i: int| 0 <= i < ms.len() ==> !(#[trigger] ms[i]).contains('\n'),
    ensures
        lines(stream(ms)) == ms.map_values(|m: Seq<char>| framed(m)),
        forall|i: int| 0 <= i < ms.len() ==> line_body(framed(#[trigger] ms[i])) == ms[i],
    decreases ms.len(),
{
    assert forall|i: int| 0 <= i < ms.len() implies line_body(framed(#[trigger] ms[i])) == ms[i] by {
        assert(framed(ms[i]).drop_last() =~= ms[i]);
    }
    if ms.len() == 0 {
        assert(lines(stream(ms)) =~= ms.map_values(|m: Seq<char>| framed(m)));
    } else {
        let rest = ms.drop_first();
        assert forall|i: int| 0 <= i < rest.len() implies !(#[trigger] rest[i]).contains('\n') by {
            assert(rest[i] == ms[i + 1]);
        }
        lemma_round_trip_framing(rest);
        let s = stream(ms);
        assert(s == framed(ms[0]) + stream(rest));
        lemma_first_line_of_framed(ms[0], stream(rest));
        let k = first_line_len(s);
        assert(s.take(k as int) =~= framed(ms[0]));
        assert(s.skip(k as int) =~= stream(rest));
        assert(lines(s) == seq![framed(ms[0])] + lines(stream(rest)));
        assert(lines(s) =~= ms.map_values(|m: Seq<char>| framed(m)));
    }
}

} // verus!
