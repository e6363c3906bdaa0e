//! The fixed textual summary of a decoded credential: one line per bundle
//! entry, in the bundle's order; a patient line uses the first name record
//! and an immunization line the first performer, with the lot number trimmed
//! of leading and trailing whitespace.

use vstd::prelude::*;
use crate::error::DecodeError;
use crate::model::Body;
use crate::model::BodyV;
use crate::model::EntryV;
use crate::model::NameV;
use crate::model::Resource;
use crate::model::ResourceV;
use crate::model::body_view;
use crate::model::entries_view;
use crate::model::resource_view;
use crate::model::strs_view;
use vstd::string::StrSliceExecFns;
use vstd::string::StringExecFns;

verus! {

/// ASCII whitespace, as trimmed from a lot number.
pub open spec fn is_space(c: char) -> bool {
    c == ' ' || c == '\t' || c == '\n' || c == '\r' || c == '\x0c'
}

/// The first index `>= i` that does not hold whitespace.
pub open spec fn trim_front(s: Seq<char>, i: int) -> int
    decreases s.len() - i,
{
    if 0 <= i < s.len() && is_space(s[i]) {
        trim_front(s, i + 1)
    } else {
        i
    }
}

/// The last index `<= j` such that everything from it on (below `j`) is
/// whitespace.
pub open spec fn trim_back(s: Seq<char>, j: int) -> int
    decreases j,
{
    if 0 < j <= s.len() && is_space(s[j - 1]) {
        trim_back(s, j - 1)
    } else {
        j
    }
}

/// `s` without its leading and trailing whitespace.
pub open spec fn trim_spec(s: Seq<char>) -> Seq<char> {
    let a = trim_front(s, 0);
    let b = trim_back(s, s.len() as int);
    if a <= b {
        s.subrange(a, b)
    } else {
        Seq::empty()
    }
}

/// The parts joined with single spaces, in order.
pub open spec fn join_spaces(parts: Seq<Seq<char>>) -> Seq<char>
    decreases parts.len(),
{
    if parts.len() == 0 {
        Seq::empty()
    } else if parts.len() == 1 {
        parts[0]
    } else {
        join_spaces(parts.drop_last()) + " "@ + parts.last()
    }
}

/// The summary line of a patient, from one name record.
pub open spec fn patient_line(n: NameV) -> Seq<char> {
    "Patient: "@ + join_spaces(n.given) + " "@ + n.family
}

/// The summary line of an immunization.
pub open spec fn immunization_line(
    lot: Seq<char>,
    status: Seq<char>,
    display: Seq<char>,
    date: Seq<char>,
) -> Seq<char> {
    "Immunization: "@ + trim_spec(lot) + ", "@ + status + " by "@ + display + " on "@ + date
}

/// The summary line of one resource: a patient uses its first name record
/// and fails with `MissingName` when there is none; an immunization uses its
/// first performer and fails with `MissingPerformer` when there is none.
pub open spec fn line_for(r: ResourceV) -> Result<Seq<char>, DecodeError> {
    match r {
        ResourceV::Patient { name, .. } => {
            if name.len() == 0 {
                Err(DecodeError::MissingName)
            } else {
                Ok(patient_line(name[0]))
            }
        },
        ResourceV::Immunization { lot_number, status, occurrence_date_time, performer, .. } => {
            if performer.len() == 0 {
                Err(DecodeError::MissingPerformer)
            } else {
                Ok(
                    immunization_line(
                        lot_number,
                        status,
                        performer[0].actor.display,
                        occurrence_date_time,
                    ),
                )
            }
        },
    }
}

/// The summary lines of a sequence of entries, in order; the first failing
/// entry's error.
pub open spec fn lines_from(entries: Seq<EntryV>) -> Result<Seq<Seq<char>>, DecodeError>
    decreases entries.len(),
{
    if entries.len() == 0 {
        Ok(Seq::empty())
    } else {
        match lines_from(entries.drop_last()) {
            Err(e) => Err(e),
            Ok(rest) => match line_for(entries.last().resource) {
                Err(e) => Err(e),
                Ok(l) => Ok(rest.push(l)),
            },
        }
    }
}

/// The whole report of a decoded record: the lines of its bundle entries.
pub open spec fn report_spec(b: BodyV) -> Result<Seq<Seq<char>>, DecodeError> {
    lines_from(b.vc.credential_subject.fhir_bundle.entry)
}

fn is_space_char(c: char) -> (b: bool)
    ensures
        b == is_space(c),
{
    c == ' ' || c == '\t' || c == '\n' || c == '\r' || c == '\x0c'
}

fn trim_front_exec(s: &str) -> (a: usize)
    ensures
        a == trim_front(s@, 0),
        a <= s@.len(),
{
    let n = s.unicode_len();
    let mut a: usize = 0;
    while a < n
        invariant
            a <= n,
            n == s@.len(),
            trim_front(s@, 0) == trim_front(s@, a as int),
        decreases n - a,
    {
        if !is_space_char(s.get_char(a)) {
            return a;
        }
        a = a + 1;
    }
    a
}

fn trim_back_exec(s: &str) -> (b: usize)
    ensures
        b == trim_back(s@, s@.len() as int),
        b <= s@.len(),
{
    let n = s.unicode_len();
    let mut b: usize = n;
    while b > 0
        invariant
            b <= n,
            n == s@.len(),
            trim_back(s@, n as int) == trim_back(s@, b as int),
        decreases b,
    {
        if !is_space_char(s.get_char(b - 1)) {
            return b;
        }
        b = b - 1;
    }
    b
}

/// `s` without its leading and trailing whitespace, as a new string.
fn trim_exec(s: &str) -> (r: String)
    ensures
        r@ == trim_spec(s@),
{
    let a = trim_front_exec(s);
    let b = trim_back_exec(s);
    if a >= b {
        proof {
            if trim_front(s@, 0) <= trim_back(s@, s@.len() as int) {
                assert(s@.subrange(a as int, b as int) =~= Seq::<char>::empty());
            }
        }
        String::new()
    } else {
        s.substring_char(a, b).to_owned()
    }
}

/// The given names joined with single spaces.
fn join_spaces_exec(parts: &Vec<String>) -> (r: String)
    ensures
        r@ == join_spaces(strs_view(*parts)),
{
    let ghost pv = strs_view(*parts);
    let n = parts.len();
    let mut out = String::new();
    if n == 0 {
        return out;
    }
    out.append(parts[0].as_str());
    let mut i: usize = 1;
    proof {
        assert(pv.subrange(0, 1) =~= seq![pv[0]]);
        assert(join_spaces(pv.subrange(0, 1)) == pv[0]);
    }
    while i < n
        invariant
            1 <= i <= n,
            n == parts@.len(),
            pv == strs_view(*parts),
            pv.len() == n,
            out@ == join_spaces(pv.subrange(0, i as int)),
        decreases n - i,
    {
        proof {
            assert(pv.subrange(0, i as int + 1).drop_last() =~= pv.subrange(0, i as int));
            assert(pv.subrange(0, i as int + 1).last() == pv[i as int]);
        }
        out.append(" ");
        out.append(parts[i].as_str());
        i = i + 1;
    }
    proof {
        assert(pv.subrange(0, n as int) =~= pv);
    }
    out
}

fn line_for_exec(r: &Resource) -> (res: Result<String, DecodeError>)
    ensures
        res is Ok <==> line_for(resource_view(*r)) is Ok,
        res is Ok ==> res->Ok_0@ == line_for(resource_view(*r))->Ok_0,
        res is Err ==> res->Err_0 == line_for(resource_view(*r))->Err_0,
{
    match r {
        Resource::Patient { name, .. } => {
            if name.len() == 0 {
                return Err(DecodeError::MissingName);
            }
            let mut out = String::from_str("Patient: ");
            let joined = join_spaces_exec(&name[0].given);
            out.append(joined.as_str());
            out.append(" ");
            out.append(name[0].family.as_str());
            Ok(out)
        },
        Resource::Immunization { lot_number, status, occurrence_date_time, performer, .. } => {
            if performer.len() == 0 {
                return Err(DecodeError::MissingPerformer);
            }
            let mut out = String::from_str("Immunization: ");
            let trimmed = trim_exec(lot_number.as_str());
            out.append(trimmed.as_str());
            out.append(", ");
            out.append(status.as_str());
            out.append(" by ");
            out.append(performer[0].actor.display.as_str());
            out.append(" on ");
            out.append(occurrence_date_time.as_str());
            Ok(out)
        },
    }
}

/// Renders the report of a decoded record: one line per bundle entry, in
/// order; fails with `MissingName` on a patient without a name record and
/// with `MissingPerformer` on an immunization without a performer.
pub fn report_lines(b: &Body) -> (r: Result<Vec<String>, DecodeError>)
    ensures
        r is Ok <==> report_spec(body_view(*b)) is Ok,
        r is Ok ==> strs_view(r->Ok_0) == report_spec(body_view(*b))->Ok_0,
        r is Err ==> report_spec(body_view(*b)) == Err::<Seq<Seq<char>>, DecodeError>(r->Err_0),
{
    let es = &b.vc.credential_subject.fhir_bundle.entry;
    let ghost ev = entries_view(*es);
    let n = es.len();
    let mut out: Vec<String> = Vec::new();
    let mut err: Option<DecodeError> = None;
    let mut i: usize = 0;
    proof {
        assert(ev.subrange(0, 0) =~= Seq::<EntryV>::empty());
        assert(strs_view(out) =~= Seq::<Seq<char>>::empty());
    }
    while i < n
        invariant
            i <= n,
            n == es@.len(),
            ev == entries_view(*es),
            ev.len() == n,
            err is None ==> lines_from(ev.subrange(0, i as int)) == Ok::<
                Seq<Seq<char>>,
                DecodeError,
            >(strs_view(out)),
            err is Some ==> lines_from(ev.subrange(0, i as int)) == Err::<
                Seq<Seq<char>>,
                DecodeError,
            >(err->0),
        decreases n - i,
    {
        proof {
            assert(ev.subrange(0, i as int + 1).drop_last() =~= ev.subrange(0, i as int));
            assert(ev.subrange(0, i as int + 1).last() == ev[i as int]);
            assert(ev[i as int].resource == resource_view(es[i as int].resource));
        }
        if err.is_none() {
            match line_for_exec(&es[i].resource) {
                Ok(l) => {
                    let ghost prev = strs_view(out);
                    let ghost lv = l@;
                    out.push(l);
                    proof {
                        assert(strs_view(out) =~= prev.push(lv));
                    }
                },
                Err(e) => {
                    err = Some(e);
                },
            }
        }
        i = i + 1;
    }
    proof {
        assert(ev.subrange(0, n as int) =~= ev);
    }
    match err {
        None => Ok(out),
        Some(e) => Err(e),
    }
}

} // verus!
