use vstd::prelude::*;
use vstd::string::StringExecFns;
use crate::model::strings_view;

verus! {

/// A finding that the protocol validator reports on a contract.
#[derive(Debug, Clone)]
pub enum Violation {
    /// A schema-conformance finding: its category, summary and instance path.
    Schema { category: String, summary: String, instance_path: String },
    /// Any other finding, by its textual description.
    Other(String),
}

/// The mathematical form of a `Violation`.
pub enum ViolationV {
    Schema { category: Seq<char>, summary: Seq<char>, instance_path: Seq<char> },
    Other(Seq<char>),
}

impl View for Violation {
    type V = ViolationV;

    open spec fn view(&self) -> ViolationV {
        match self {
            Violation::Schema { category, summary, instance_path } => ViolationV::Schema {
                category: category@,
                summary: summary@,
                instance_path: instance_path@,
            },
            Violation::Other(d) => ViolationV::Other(d@),
        }
    }
}

/// The message of a finding: `<category>: <summary>, Path: <path>` for a
/// schema-conformance finding, the description for any other.
pub open spec fn message_of(v: ViolationV) -> Seq<char> {
    match v {
        ViolationV::Schema { category, summary, instance_path } => category + ": "@ + summary
            + ", Path: "@ + instance_path,
        ViolationV::Other(d) => d,
    }
}

/// The messages of a list of findings, in order.
pub open spec fn messages_of(vs: Seq<Violation>) -> Seq<Seq<char>> {
    vs.map_values(|v: Violation| message_of(v@))
}

/// A list with each value kept at its first occurrence only.
pub open spec fn dedup(s: Seq<Seq<char>>) -> Seq<Seq<char>>
    decreases s.len(),
{
    if s.len() == 0 {
        Seq::empty()
    } else {
        let r = dedup(s.drop_last());
        if r.contains(s.last()) {
            r
        } else {
            r.push(s.last())
        }
    }
}

/// The message of one finding.
pub fn format_violation(v: &Violation) -> (r: String)
    ensures
        r@ == message_of(v@),
{
    match v {
        Violation::Schema { category, summary, instance_path } => {
            let mut s = category.clone();
            s.append(": ");
            s.append(summary.as_str());
            s.append(", Path: ");
            s.append(instance_path.as_str());
            s
        },
        Violation::Other(d) => d.clone(),
    }
}

/// The messages of the validator's findings, each distinct message once, in
/// the order of first occurrence. An empty list means the contract passed.
pub fn extract_basic_error_messages(errors: &Vec<Violation>) -> (r: Vec<String>)
    ensures
        strings_view(r@) == dedup(messages_of(errors@)),
{
    let ghost ms = messages_of(errors@);
    let mut r: Vec<String> = Vec::new();
    let mut i: usize = 0;
    assert(strings_view(r@) =~= dedup(ms.subrange(0, 0)));
    while i < errors.len()
        invariant
            i <= errors.len(),
            ms == messages_of(errors@),
            strings_view(r@) == dedup(ms.subrange(0, i as int)),
        decreases errors.len() - i,
    {
        assert(ms.subrange(0, i + 1).drop_last() =~= ms.subrange(0, i as int));
        let m = format_violation(&errors[i]);
        let mut found = false;
        let mut j: usize = 0;
        while j < r.len()
            invariant
                j <= r.len(),
                found == exists|k: int| 0 <= k < j && r@[k]@ == m@,
            decreases r.len() - j,
        {
            if r[j] == m {
                found = true;
            }
            j = j + 1;
        }
        assert(found == strings_view(r@).contains(m@)) by {
            if strings_view(r@).contains(m@) {
                let k = choose|k: int| 0 <= k < strings_view(r@).len() && strings_view(r@)[k] == m@;
                assert(r@[k]@ == m@);
            }
            if found {
                let k = choose|k: int| 0 <= k < r.len() && r@[k]@ == m@;
                assert(strings_view(r@)[k] == m@);
            }
        }
        if !found {
            let ghost r0 = strings_view(r@);
            r.push(m);
            assert(strings_view(r@) =~= r0.push(ms[i as int]));
        }
        i = i + 1;
    }
    assert(ms.subrange(0, errors.len() as int) =~= ms);
    r
}

/// Deduplicated messages hold each message of the findings exactly once and
/// nothing else.
pub proof fn lemma_dedup_each_once(s: Seq<Seq<char>>)
    ensures
        dedup(s).no_duplicates(),
        forall|m: Seq<char>| #[trigger] dedup(s).contains(m) <==> s.contains(m),
    decreases s.len(),
{
    if s.len() > 0 {
        lemma_dedup_each_once(s.drop_last());
        let r = dedup(s.drop_last());
        let d = dedup(s);
        let t = s.drop_last();
        assert(forall|m: Seq<char>| r.contains(m) ==> d.contains(m)) by {
            assert forall|m: Seq<char>| r.contains(m) implies d.contains(m) by {
                let k = choose|k: int| 0 <= k < r.len() && r[k] == m;
                assert(d[k] == m);
            }
        }
        assert forall|m: Seq<char>| #[trigger] d.contains(m) <==> s.contains(m) by {
            if s.contains(m) {
                let k = choose|k: int| 0 <= k < s.len() && s[k] == m;
                if k < s.len() - 1 {
                    assert(t[k] == m);
                    assert(t.contains(m));
                } else if !r.contains(m) {
                    assert(d[r.len() as int] == m);
                }
            }
            if d.contains(m) {
                if r.contains(m) {
                    assert(t.contains(m));
                    let k = choose|k: int| 0 <= k < t.len() && t[k] == m;
                    assert(s[k] == m);
                } else {
                    let k = choose|k: int| 0 <= k < d.len() && d[k] == m;
                    assert(k == r.len());
                    assert(s[s.len() - 1] == m);
                }
            }
        }
        if !r.contains(s.last()) {
            assert(dedup(s) == r.push(s.last()));
        }
    }
}

} // verus!
