use vstd::prelude::*;

use crate::rules::names_view;
use crate::seqs::lemma_to_set_push;

verus! {

/// What the external DNS decoder extracts from a raw datagram: the question
/// names and the answer names in wire order, or nothing when the buffer is
/// not a valid DNS message. The value is fixed by the bytes alone; nothing
/// more is assumed of it.
pub uninterp spec fn dns_names(data: Seq<u8>) -> Option<(Seq<Seq<char>>, Seq<Seq<char>>)>;

/// Relies on simple_dns's `Packet::parse`: whether a buffer decodes, and the
/// question and answer names it carries, depend on the bytes alone. The names
/// are rendered in dotted form by the crate's own display of `Name`.
#[verifier::external_body]
pub(crate) fn parse_names(data: &[u8]) -> (r: Option<(Vec<String>, Vec<String>)>)
    ensures
        match r {
            Some(p) => dns_names(data@) == Some((names_view(p.0@), names_view(p.1@))),
            None => dns_names(data@) is None,
        },
{
    match simple_dns::Packet::parse(data) {
        Ok(p) => Some(
            (
                p.questions.iter().map(|q| q.qname.to_string()).collect(),
                p.answers.iter().map(|a| a.name.to_string()).collect(),
            ),
        ),
        Err(_) => None,
    }
}

/// No two entries hold the same name.
pub open spec fn distinct_names(s: Seq<String>) -> bool {
    forall|i: int, j: int| 0 <= i < j < s.len() ==> (#[trigger] s[i])@ != (#[trigger] s[j])@
}

/// The question and answer names of one decoded datagram, each list
/// deduplicated: together they are all the Rule Engine reads of a packet.
pub struct ClassifiedPacket {
    pub questions: Vec<String>,
    pub answers: Vec<String>,
}

impl ClassifiedPacket {
    /// Both name lists are free of duplicates.
    pub open spec fn wf(self) -> bool {
        distinct_names(self.questions@) && distinct_names(self.answers@)
    }
}

/// Tests whether `v` already holds the name of `x`.
fn contains_name(v: &Vec<String>, x: &String) -> (r: bool)
    ensures
        r == names_view(v@).contains(x@),
{
    let mut i: usize = 0;
    while i < v.len()
        invariant
            i <= v@.len(),
            forall|j: int| 0 <= j < i ==> (#[trigger] names_view(v@)[j]) != x@,
        decreases v@.len() - i,
    {
        if v[i] == *x {
            assert(names_view(v@)[i as int] == x@);
            return true;
        }
        i = i + 1;
    }
    false
}

/// Removes duplicate names, keeping the first occurrence of each: the result
/// holds exactly the names of the input, each once.
pub fn dedup_names(v: &Vec<String>) -> (out: Vec<String>)
    ensures
        names_view(out@).to_set() == names_view(v@).to_set(),
        distinct_names(out@),
{
    let mut out: Vec<String> = Vec::new();
    let mut i: usize = 0;
    while i < v.len()
        invariant
            i <= v@.len(),
            distinct_names(out@),
            names_view(out@).to_set() == names_view(v@.subrange(0, i as int)).to_set(),
        decreases v@.len() - i,
    {
        let ghost old_out = out@;
        let ghost n = v@[i as int]@;
        proof {
            assert(names_view(v@.subrange(0, i as int + 1)) =~= names_view(
                v@.subrange(0, i as int),
            ).push(n));
            lemma_to_set_push(names_view(v@.subrange(0, i as int)), n);
        }
        if !contains_name(&out, &v[i]) {
            out.push(v[i].clone());
            proof {
                assert(names_view(out@) =~= names_view(old_out).push(n));
                lemma_to_set_push(names_view(old_out), n);
                assert forall|a: int, b: int| 0 <= a < b < out@.len() implies (
                #[trigger] out@[a])@ != (#[trigger] out@[b])@ by {
                    if b == out@.len() - 1 {
                        assert(names_view(old_out)[a] == old_out[a]@);
                    }
                }
            }
        } else {
            proof {
                assert(names_view(out@).to_set().contains(n));
                assert(names_view(out@).to_set() =~= names_view(out@).to_set().insert(n));
            }
        }
        i = i + 1;
    }
    proof {
        assert(v@.subrange(0, v@.len() as int) =~= v@);
    }
    out
}

/// Classifies a raw datagram: decodes it with the external DNS decoder and
/// reduces the result to the set of question names and the set of answer
/// names. Returns `None` exactly when the buffer is not a valid DNS message.
pub fn classify(data: &[u8]) -> (r: Option<ClassifiedPacket>)
    ensures
        match r {
            Some(cp) => {
                &&& cp.wf()
                &&& dns_names(data@) matches Some(p) && names_view(cp.questions@).to_set()
                    == p.0.to_set() && names_view(cp.answers@).to_set() == p.1.to_set()
            },
            None => dns_names(data@) is None,
        },
{
    match parse_names(data) {
        Some(p) => {
            let questions = dedup_names(&p.0);
            let answers = dedup_names(&p.1);
            Some(ClassifiedPacket { questions, answers })
        },
        None => None,
    }
}

} // verus!
