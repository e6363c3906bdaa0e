//! The typed FHIR subset a credential decodes into, and the strict
//! structural decoding from parsed JSON: camelCase keys are matched
//! case-sensitively, the resource variant is selected by the `resourceType`
//! tag, and a missing or wrongly typed required field is a schema violation.

use vstd::prelude::*;
use crate::error::DecodeError;
use crate::json::Json;
use crate::json::JsonFieldV;
use crate::json::JsonV;
use crate::json::JsonField;
use crate::json::jview;
use crate::json::fields_view;
use crate::json::elems_view;
use crate::numeric::all_digits;
use crate::numeric::digit_val;
use crate::util::str_eq;

verus! {

/// One human name: a family name and the given names in order.
#[derive(Debug, PartialEq)]
pub struct Name {
    pub family: String,
    pub given: Vec<String>,
}

/// One vaccine coding: a coding system and a code within it.
#[derive(Debug, PartialEq)]
pub struct VaccineCoding {
    pub system: String,
    pub code: String,
}

/// The codings of an administered vaccine.
#[derive(Debug, PartialEq)]
pub struct VaccineCode {
    pub coding: Vec<VaccineCoding>,
}

/// A reference to the patient resource of the bundle.
#[derive(Debug, PartialEq)]
pub struct PatientReference {
    pub reference: String,
}

/// The displayed name of a performing actor.
#[derive(Debug, PartialEq)]
pub struct Actor {
    pub display: String,
}

/// One performer of an immunization.
#[derive(Debug, PartialEq)]
pub struct Performer {
    pub actor: Actor,
}

/// A bundle resource: exactly the two recognized variants.
#[derive(Debug, PartialEq)]
pub enum Resource {
    Patient { name: Vec<Name>, birth_date: String },
    Immunization {
        lot_number: String,
        status: String,
        vaccine_code: VaccineCode,
        patient: PatientReference,
        occurrence_date_time: String,
        performer: Vec<Performer>,
    },
}

/// One bundle entry: its URL and its resource.
#[derive(Debug, PartialEq)]
pub struct Entry {
    pub full_url: String,
    pub resource: Resource,
}

/// The FHIR bundle of the credential.
#[derive(Debug, PartialEq)]
pub struct FhirBundle {
    pub resource_type: String,
    pub bundle_type: String,
    pub entry: Vec<Entry>,
}

/// The credential subject: a FHIR version and its bundle.
#[derive(Debug, PartialEq)]
pub struct CredentialSubject {
    pub fhir_version: String,
    pub fhir_bundle: FhirBundle,
}

/// The verifiable-credential wrapper.
#[derive(Debug, PartialEq)]
pub struct Vc {
    pub types: Vec<String>,
    pub credential_subject: CredentialSubject,
}

/// The decoded top-level record of a credential.
#[derive(Debug, PartialEq)]
pub struct Body {
    pub iss: String,
    pub nbf: i32,
    pub vc: Vc,
}

pub ghost struct NameV {
    pub family: Seq<char>,
    pub given: Seq<Seq<char>>,
}

pub ghost struct VaccineCodingV {
    pub system: Seq<char>,
    pub code: Seq<char>,
}

pub ghost struct VaccineCodeV {
    pub coding: Seq<VaccineCodingV>,
}

pub ghost struct PatientReferenceV {
    pub reference: Seq<char>,
}

pub ghost struct ActorV {
    pub display: Seq<char>,
}

pub ghost struct PerformerV {
    pub actor: ActorV,
}

pub ghost enum ResourceV {
    Patient { name: Seq<NameV>, birth_date: Seq<char> },
    Immunization {
        lot_number: Seq<char>,
        status: Seq<char>,
        vaccine_code: VaccineCodeV,
        patient: PatientReferenceV,
        occurrence_date_time: Seq<char>,
        performer: Seq<PerformerV>,
    },
}

pub ghost struct EntryV {
    pub full_url: Seq<char>,
    pub resource: ResourceV,
}

pub ghost struct FhirBundleV {
    pub resource_type: Seq<char>,
    pub bundle_type: Seq<char>,
    pub entry: Seq<EntryV>,
}

pub ghost struct CredentialSubjectV {
    pub fhir_version: Seq<char>,
    pub fhir_bundle: FhirBundleV,
}

pub ghost struct VcV {
    pub types: Seq<Seq<char>>,
    pub credential_subject: CredentialSubjectV,
}

pub ghost struct BodyV {
    pub iss: Seq<char>,
    pub nbf: int,
    pub vc: VcV,
}

pub open spec fn strs_view(v: Vec<String>) -> Seq<Seq<char>> {
    v@.map_values(|x: String| x@)
}

pub open spec fn name_view(n: Name) -> NameV {
    NameV { family: n.family@, given: strs_view(n.given) }
}

pub open spec fn names_view(v: Vec<Name>) -> Seq<NameV> {
    v@.map_values(|x: Name| name_view(x))
}

pub open spec fn coding_view(c: VaccineCoding) -> VaccineCodingV {
    VaccineCodingV { system: c.system@, code: c.code@ }
}

pub open spec fn codings_view(v: Vec<VaccineCoding>) -> Seq<VaccineCodingV> {
    v@.map_values(|x: VaccineCoding| coding_view(x))
}

pub open spec fn vaccine_code_view(c: VaccineCode) -> VaccineCodeV {
    VaccineCodeV { coding: codings_view(c.coding) }
}

pub open spec fn performer_view(p: Performer) -> PerformerV {
    PerformerV { actor: ActorV { display: p.actor.display@ } }
}

pub open spec fn performers_view(v: Vec<Performer>) -> Seq<PerformerV> {
    v@.map_values(|x: Performer| performer_view(x))
}

pub open spec fn resource_view(r: Resource) -> ResourceV {
    match r {
        Resource::Patient { name, birth_date } => ResourceV::Patient {
            name: names_view(name),
            birth_date: birth_date@,
        },
        Resource::Immunization {
            lot_number,
            status,
            vaccine_code,
            patient,
            occurrence_date_time,
            performer,
        } => ResourceV::Immunization {
            lot_number: lot_number@,
            status: status@,
            vaccine_code: vaccine_code_view(vaccine_code),
            patient: PatientReferenceV { reference: patient.reference@ },
            occurrence_date_time: occurrence_date_time@,
            performer: performers_view(performer),
        },
    }
}

pub open spec fn entry_view(e: Entry) -> EntryV {
    EntryV { full_url: e.full_url@, resource: resource_view(e.resource) }
}

pub open spec fn entries_view(v: Vec<Entry>) -> Seq<EntryV> {
    v@.map_values(|x: Entry| entry_view(x))
}

pub open spec fn bundle_view(b: FhirBundle) -> FhirBundleV {
    FhirBundleV {
        resource_type: b.resource_type@,
        bundle_type: b.bundle_type@,
        entry: entries_view(b.entry),
    }
}

pub open spec fn body_view(b: Body) -> BodyV {
    BodyV {
        iss: b.iss@,
        nbf: b.nbf as int,
        vc: VcV {
            types: strs_view(b.vc.types),
            credential_subject: CredentialSubjectV {
                fhir_version: b.vc.credential_subject.fhir_version@,
                fhir_bundle: bundle_view(b.vc.credential_subject.fhir_bundle),
            },
        },
    }
}

/// The value of the first member named `key`, if any.
pub open spec fn obj_get(fs: Seq<JsonFieldV>, key: Seq<char>) -> Option<JsonV>
    decreases fs.len(),
{
    if fs.len() == 0 {
        None
    } else if fs[0].key == key {
        Some(fs[0].value)
    } else {
        obj_get(fs.drop_first(), key)
    }
}

/// The text of the member named `key`, when present and a string.
pub open spec fn str_field(fs: Seq<JsonFieldV>, key: Seq<char>) -> Option<Seq<char>> {
    match obj_get(fs, key) {
        Some(JsonV::Str(t)) => Some(t),
        _ => None,
    }
}

/// An array of strings, when every element is a string.
pub open spec fn strings_from(es: Seq<JsonV>) -> Option<Seq<Seq<char>>>
    decreases es.len(),
{
    if es.len() == 0 {
        Some(Seq::empty())
    } else {
        match (strings_from(es.drop_last()), es.last()) {
            (Some(rest), JsonV::Str(t)) => Some(rest.push(t)),
            _ => None,
        }
    }
}

/// The value of a decimal digit string.
pub open spec fn dec_val(s: Seq<char>) -> int
    decreases s.len(),
{
    if s.len() == 0 {
        0
    } else {
        dec_val(s.drop_last()) * 10 + digit_val(s.last())
    }
}

/// The integer a number literal denotes, when it is a plain (optionally
/// negated) digit string; a literal with a fraction or exponent denotes none.
pub open spec fn int_of_lit(lit: Seq<char>) -> Option<int> {
    if lit.len() > 0 && lit[0] == '-' {
        if lit.len() > 1 && all_digits(lit.skip(1)) {
            Some(-dec_val(lit.skip(1)))
        } else {
            None
        }
    } else if lit.len() > 0 && all_digits(lit) {
        Some(dec_val(lit))
    } else {
        None
    }
}

/// A `Name` from a JSON value.
pub open spec fn name_from(j: JsonV) -> Result<NameV, DecodeError> {
    match j {
        JsonV::Obj(fs) => match (str_field(fs, "family"@), obj_get(fs, "given"@)) {
            (Some(fam), Some(JsonV::Arr(g))) => match strings_from(g) {
                Some(given) => Ok(NameV { family: fam, given }),
                None => Err(DecodeError::SchemaViolation),
            },
            _ => Err(DecodeError::SchemaViolation),
        },
        _ => Err(DecodeError::SchemaViolation),
    }
}

/// The names of a patient from the elements of a JSON array.
pub open spec fn names_from(es: Seq<JsonV>) -> Result<Seq<NameV>, DecodeError>
    decreases es.len(),
{
    if es.len() == 0 {
        Ok(Seq::empty())
    } else {
        match names_from(es.drop_last()) {
            Err(e) => Err(e),
            Ok(rest) => match name_from(es.last()) {
                Err(e) => Err(e),
                Ok(v) => Ok(rest.push(v)),
            },
        }
    }
}

/// A `VaccineCoding` from a JSON value.
pub open spec fn coding_from(j: JsonV) -> Result<VaccineCodingV, DecodeError> {
    match j {
        JsonV::Obj(fs) => match (str_field(fs, "system"@), str_field(fs, "code"@)) {
            (Some(system), Some(code)) => Ok(VaccineCodingV { system, code }),
            _ => Err(DecodeError::SchemaViolation),
        },
        _ => Err(DecodeError::SchemaViolation),
    }
}

/// The codings of a vaccine code from the elements of a JSON array.
pub open spec fn codings_from(es: Seq<JsonV>) -> Result<Seq<VaccineCodingV>, DecodeError>
    decreases es.len(),
{
    if es.len() == 0 {
        Ok(Seq::empty())
    } else {
        match codings_from(es.drop_last()) {
            Err(e) => Err(e),
            Ok(rest) => match coding_from(es.last()) {
                Err(e) => Err(e),
                Ok(v) => Ok(rest.push(v)),
            },
        }
    }
}

/// A `VaccineCode` from a JSON value.
pub open spec fn vaccine_code_from(j: JsonV) -> Result<VaccineCodeV, DecodeError> {
    match j {
        JsonV::Obj(fs) => match obj_get(fs, "coding"@) {
            Some(JsonV::Arr(cs)) => match codings_from(cs) {
                Err(e) => Err(e),
                Ok(coding) => Ok(VaccineCodeV { coding }),
            },
            _ => Err(DecodeError::SchemaViolation),
        },
        _ => Err(DecodeError::SchemaViolation),
    }
}

/// A `PatientReference` from a JSON value.
pub open spec fn patient_ref_from(j: JsonV) -> Result<PatientReferenceV, DecodeError> {
    match j {
        JsonV::Obj(fs) => match str_field(fs, "reference"@) {
            Some(reference) => Ok(PatientReferenceV { reference }),
            None => Err(DecodeError::SchemaViolation),
        },
        _ => Err(DecodeError::SchemaViolation),
    }
}

/// A `Performer` from a JSON value.
pub open spec fn performer_from(j: JsonV) -> Result<PerformerV, DecodeError> {
    match j {
        JsonV::Obj(fs) => match obj_get(fs, "actor"@) {
            Some(JsonV::Obj(afs)) => match str_field(afs, "display"@) {
                Some(display) => Ok(PerformerV { actor: ActorV { display } }),
                None => Err(DecodeError::SchemaViolation),
            },
            _ => Err(DecodeError::SchemaViolation),
        },
        _ => Err(DecodeError::SchemaViolation),
    }
}

/// The performers of an immunization from the elements of a JSON array.
pub open spec fn performers_from(es: Seq<JsonV>) -> Result<Seq<PerformerV>, DecodeError>
    decreases es.len(),
{
    if es.len() == 0 {
        Ok(Seq::empty())
    } else {
        match performers_from(es.drop_last()) {
            Err(e) => Err(e),
            Ok(rest) => match performer_from(es.last()) {
                Err(e) => Err(e),
                Ok(v) => Ok(rest.push(v)),
            },
        }
    }
}

/// A `Patient` resource from the members of its JSON object.
pub open spec fn patient_resource_from(fs: Seq<JsonFieldV>) -> Result<ResourceV, DecodeError> {
    match (obj_get(fs, "name"@), str_field(fs, "birthDate"@)) {
        (Some(JsonV::Arr(ns)), Some(birth_date)) => match names_from(ns) {
            Err(e) => Err(e),
            Ok(name) => Ok(ResourceV::Patient { name, birth_date }),
        },
        _ => Err(DecodeError::SchemaViolation),
    }
}

/// An `Immunization` resource from the members of its JSON object.
pub open spec fn immunization_resource_from(fs: Seq<JsonFieldV>) -> Result<
    ResourceV,
    DecodeError,
> {
    match (
        str_field(fs, "lotNumber"@),
        str_field(fs, "status"@),
        obj_get(fs, "vaccineCode"@),
        obj_get(fs, "patient"@),
        str_field(fs, "occurrenceDateTime"@),
        obj_get(fs, "performer"@),
    ) {
        (Some(lot_number), Some(status), Some(vc), Some(p), Some(odt), Some(JsonV::Arr(ps))) => {
            match (vaccine_code_from(vc), patient_ref_from(p), performers_from(ps)) {
                (Ok(vaccine_code), Ok(patient), Ok(performer)) => Ok(ResourceV::Immunization {
                    lot_number,
                    status,
                    vaccine_code,
                    patient,
                    occurrence_date_time: odt,
                    performer,
                }),
                (Err(e), _, _) => Err(e),
                (_, Err(e), _) => Err(e),
                (_, _, Err(e)) => Err(e),
            }
        },
        _ => Err(DecodeError::SchemaViolation),
    }
}

/// A `Resource` from a JSON value, selected by its `resourceType` tag;
/// a tag other than `Patient` or `Immunization` is unknown.
pub open spec fn resource_from(j: JsonV) -> Result<ResourceV, DecodeError> {
    match j {
        JsonV::Obj(fs) => match str_field(fs, "resourceType"@) {
            Some(t) => if t == "Patient"@ {
                patient_resource_from(fs)
            } else if t == "Immunization"@ {
                immunization_resource_from(fs)
            } else {
                Err(DecodeError::UnknownResourceType)
            },
            None => Err(DecodeError::SchemaViolation),
        },
        _ => Err(DecodeError::SchemaViolation),
    }
}

/// An `Entry` from a JSON value.
pub open spec fn entry_from(j: JsonV) -> Result<EntryV, DecodeError> {
    match j {
        JsonV::Obj(fs) => match (str_field(fs, "fullUrl"@), obj_get(fs, "resource"@)) {
            (Some(full_url), Some(r)) => match resource_from(r) {
                Err(e) => Err(e),
                Ok(resource) => Ok(EntryV { full_url, resource }),
            },
            _ => Err(DecodeError::SchemaViolation),
        },
        _ => Err(DecodeError::SchemaViolation),
    }
}

/// The entries of a bundle from the elements of a JSON array.
pub open spec fn entries_from(es: Seq<JsonV>) -> Result<Seq<EntryV>, DecodeError>
    decreases es.len(),
{
    if es.len() == 0 {
        Ok(Seq::empty())
    } else {
        match entries_from(es.drop_last()) {
            Err(e) => Err(e),
            Ok(rest) => match entry_from(es.last()) {
                Err(e) => Err(e),
                Ok(v) => Ok(rest.push(v)),
            },
        }
    }
}

/// A `FhirBundle` from a JSON value.
pub open spec fn bundle_from(j: JsonV) -> Result<FhirBundleV, DecodeError> {
    match j {
        JsonV::Obj(fs) => match (
            str_field(fs, "resourceType"@),
            str_field(fs, "type"@),
            obj_get(fs, "entry"@),
        ) {
            (Some(resource_type), Some(bundle_type), Some(JsonV::Arr(es))) => {
                match entries_from(es) {
                    Err(e) => Err(e),
                    Ok(entry) => Ok(FhirBundleV { resource_type, bundle_type, entry }),
                }
            },
            _ => Err(DecodeError::SchemaViolation),
        },
        _ => Err(DecodeError::SchemaViolation),
    }
}

/// A `CredentialSubject` from a JSON value.
pub open spec fn credential_subject_from(j: JsonV) -> Result<CredentialSubjectV, DecodeError> {
    match j {
        JsonV::Obj(fs) => match (str_field(fs, "fhirVersion"@), obj_get(fs, "fhirBundle"@)) {
            (Some(fhir_version), Some(b)) => match bundle_from(b) {
                Err(e) => Err(e),
                Ok(fhir_bundle) => Ok(CredentialSubjectV { fhir_version, fhir_bundle }),
            },
            _ => Err(DecodeError::SchemaViolation),
        },
        _ => Err(DecodeError::SchemaViolation),
    }
}

/// A `Vc` from a JSON value.
pub open spec fn vc_from(j: JsonV) -> Result<VcV, DecodeError> {
    match j {
        JsonV::Obj(fs) => match (obj_get(fs, "type"@), obj_get(fs, "credentialSubject"@)) {
            (Some(JsonV::Arr(ts)), Some(cs)) => match strings_from(ts) {
                None => Err(DecodeError::SchemaViolation),
                Some(types) => match credential_subject_from(cs) {
                    Err(e) => Err(e),
                    Ok(credential_subject) => Ok(VcV { types, credential_subject }),
                },
            },
            _ => Err(DecodeError::SchemaViolation),
        },
        _ => Err(DecodeError::SchemaViolation),
    }
}

/// The top-level record from a JSON value: `iss` a string, `nbf` an integer
/// in `i32` range, and `vc` the credential wrapper.
pub open spec fn body_from(j: JsonV) -> Result<BodyV, DecodeError> {
    match j {
        JsonV::Obj(fs) => match (
            str_field(fs, "iss"@),
            obj_get(fs, "nbf"@),
            obj_get(fs, "vc"@),
        ) {
            (Some(iss), Some(JsonV::Num(lit)), Some(v)) => match int_of_lit(lit) {
                Some(nbf) => if i32::MIN <= nbf <= i32::MAX {
                    match vc_from(v) {
                        Err(e) => Err(e),
                        Ok(vc) => Ok(BodyV { iss, nbf, vc }),
                    }
                } else {
                    Err(DecodeError::SchemaViolation)
                },
                None => Err(DecodeError::SchemaViolation),
            },
            _ => Err(DecodeError::SchemaViolation),
        },
        _ => Err(DecodeError::SchemaViolation),
    }
}

/// The decoded record of a whole JSON text: the parsed document's record,
/// and a schema violation when the text is not well-formed JSON.
pub open spec fn body_from_text(s: Seq<char>) -> Result<BodyV, DecodeError> {
    match crate::json::parse_json(s) {
        None => Err(DecodeError::SchemaViolation),
        Some(j) => body_from(j),
    }
}

/// Decoding the same JSON text twice yields equal results: the decode step
/// is a function of the text alone.
pub proof fn lemma_decode_idempotent(s1: Seq<char>, s2: Seq<char>)
    requires
        s1 == s2,
    ensures
        body_from_text(s1) == body_from_text(s2),
{
}

fn obj_get_exec<'a>(fs: &'a Vec<JsonField>, key: &str) -> (r: Option<&'a Json>)
    ensures
        r is Some <==> obj_get(fields_view(*fs), key@) is Some,
        r is Some ==> jview(*r->0) == obj_get(fields_view(*fs), key@)->0,
{
    let ghost fv = fields_view(*fs);
    let n = fs.len();
    let mut i: usize = 0;
    proof {
        assert(fv.skip(0) =~= fv);
    }
    while i < n
        invariant
            i <= n,
            n == fs@.len(),
            fv == fields_view(*fs),
            fv.len() == n,
            obj_get(fv, key@) == obj_get(fv.skip(i as int), key@),
        decreases n - i,
    {
        proof {
            assert(fv.skip(i as int)[0] == fv[i as int]);
            assert(fv.skip(i as int).drop_first() =~= fv.skip(i as int + 1));
        }
        if str_eq(fs[i].key.as_str(), key) {
            return Some(&fs[i].value);
        }
        i = i + 1;
    }
    None
}

/// The `nbf` field from a number literal: its integer value when the literal
/// is a plain integer in `i32` range.
fn nbf_from_lit(lit: &String) -> (r: Option<i32>)
    ensures
        r is Some <==> (int_of_lit(lit@) is Some && i32::MIN <= int_of_lit(lit@)->0 <= i32::MAX),
        r is Some ==> r->0 as int == int_of_lit(lit@)->0,
{
    let s = lit.as_str();
    let n = s.unicode_len();
    let neg = n > 0 && s.get_char(0) == '-';
    let start: usize = if neg {
        1
    } else {
        0
    };
    if start >= n {
        return None;
    }
    let ghost digits = lit@.skip(start as int);
    let mut acc: u64 = 0;
    let mut big: bool = false;
    let mut i = start;
    proof {
        assert(lit@.subrange(start as int, start as int) =~= Seq::<char>::empty());
    }
    while i < n
        invariant
            start <= i <= n,
            n == lit@.len(),
            s@ == lit@,
            start < n,
            neg ==> start == 1 && lit@[0] == '-',
            !neg ==> start == 0 && !(lit@.len() > 0 && lit@[0] == '-'),
            all_digits(lit@.subrange(start as int, i as int)),
            !big ==> acc <= 0x8000_0000 && acc as int == dec_val(
                lit@.subrange(start as int, i as int),
            ),
            big ==> dec_val(lit@.subrange(start as int, i as int)) > 0x8000_0000,
        decreases n - i,
    {
        let c = s.get_char(i);
        let v = c as u32;
        if !(48 <= v && v <= 57) {
            proof {
                assert(!crate::numeric::is_digit(lit@[i as int]));
                assert(lit@.skip(start as int)[i as int - start as int] == lit@[i as int]);
                assert(!all_digits(lit@.skip(start as int)));
                assert(lit@.subrange(1, n as int) =~= lit@.skip(1));
            }
            return None;
        }
        proof {
            assert(lit@.subrange(start as int, i as int + 1).drop_last() =~= lit@.subrange(
                start as int,
                i as int,
            ));
            assert(lit@.subrange(start as int, i as int + 1).last() == lit@[i as int]);
        }
        if !big {
            let d = (v - 48) as u64;
            let acc2 = acc * 10 + d;
            if acc2 > 0x8000_0000 {
                big = true;
            } else {
                acc = acc2;
            }
        } else {
            proof {
                let p = lit@.subrange(start as int, i as int);
                let p2 = lit@.subrange(start as int, i as int + 1);
                assert(dec_val(p2) == dec_val(p) * 10 + digit_val(lit@[i as int]));
                assert(digit_val(lit@[i as int]) >= 0);
                assert(dec_val(p) * 10 > 0x8000_0000);
            }
        }
        i = i + 1;
    }
    proof {
        assert(lit@.subrange(start as int, n as int) =~= digits);
        assert(all_digits(digits));
        assert(digits.len() > 0);
        if neg {
            assert(int_of_lit(lit@) == Some(-dec_val(digits)));
        } else {
            assert(digits =~= lit@);
            assert(int_of_lit(lit@) == Some(dec_val(lit@)));
            assert(dec_val(lit@) == dec_val(digits));
        }
    }
    if big {
        return None;
    }
    if neg {
        Some((-(acc as i64)) as i32)
    } else {
        if acc > 0x7FFF_FFFF {
            return None;
        }
        Some(acc as i32)
    }
}

fn strings_from_exec(es: &Vec<Json>) -> (r: Option<Vec<String>>)
    ensures
        r is Some <==> strings_from(elems_view(*es)) is Some,
        r is Some ==> strs_view(r->0) == strings_from(elems_view(*es))->0,
{
    let ghost ev = elems_view(*es);
    let n = es.len();
    let mut out: Vec<String> = Vec::new();
    let mut ok: bool = true;
    let mut i: usize = 0;
    proof {
        assert(ev.subrange(0, 0) =~= Seq::<JsonV>::empty());
        assert(strs_view(out) =~= Seq::<Seq<char>>::empty());
    }
    while i < n
        invariant
            i <= n,
            n == es@.len(),
            ev == elems_view(*es),
            ev.len() == n,
            ok ==> strings_from(ev.subrange(0, i as int)) == Some(strs_view(out)),
            !ok ==> strings_from(ev.subrange(0, i as int)) is None,
        decreases n - i,
    {
        proof {
            assert(ev.subrange(0, i as int + 1).drop_last() =~= ev.subrange(0, i as int));
            assert(ev.subrange(0, i as int + 1).last() == ev[i as int]);
            assert(ev[i as int] == jview(es[i as int]));
        }
        if ok {
            match &es[i] {
                Json::Str(t) => {
                    let ghost prev = strs_view(out);
                    out.push(t.clone());
                    proof {
                        assert(strs_view(out) =~= prev.push(t@));
                    }
                },
                _ => {
                    ok = false;
                },
            }
        }
        i = i + 1;
    }
    proof {
        assert(ev.subrange(0, n as int) =~= ev);
    }
    if ok {
        Some(out)
    } else {
        None
    }
}

fn name_from_exec(j: &Json) -> (r: Result<Name, DecodeError>)
    ensures
        r is Ok <==> name_from(jview(*j)) is Ok,
        r is Ok ==> name_view(r->Ok_0) == name_from(jview(*j))->Ok_0,
        r is Err ==> r->Err_0 == name_from(jview(*j))->Err_0,
{
    let fs = match j {
        Json::Obj(fs) => fs,
        _ => {
            return Err(DecodeError::SchemaViolation);
        },
    };
    let fam: &String = match obj_get_exec(fs, "family") {
        Some(Json::Str(t)) => t,
        _ => {
            return Err(DecodeError::SchemaViolation);
        },
    };
    let g: &Vec<Json> = match obj_get_exec(fs, "given") {
        Some(Json::Arr(a)) => a,
        _ => {
            return Err(DecodeError::SchemaViolation);
        },
    };
    match strings_from_exec(g) {
        Some(given) => Ok(Name { family: fam.clone(), given }),
        None => Err(DecodeError::SchemaViolation),
    }
}

fn names_from_exec(es: &Vec<Json>) -> (r: Result<Vec<Name>, DecodeError>)
    ensures
        r is Ok <==> names_from(elems_view(*es)) is Ok,
        r is Ok ==> names_view(r->Ok_0) == names_from(elems_view(*es))->Ok_0,
        r is Err ==> names_from(elems_view(*es)) == Err::<Seq<NameV>, DecodeError>(r->Err_0),
{
    let ghost ev = elems_view(*es);
    let n = es.len();
    let mut out: Vec<Name> = Vec::new();
    let mut err: Option<DecodeError> = None;
    let mut i: usize = 0;
    proof {
        assert(ev.subrange(0, 0) =~= Seq::<JsonV>::empty());
        assert(names_view(out) =~= Seq::<NameV>::empty());
    }
    while i < n
        invariant
            i <= n,
            n == es@.len(),
            ev == elems_view(*es),
            ev.len() == n,
            err is None ==> names_from(ev.subrange(0, i as int)) == Ok::<Seq<NameV>, DecodeError>(
                names_view(out),
            ),
            err is Some ==> names_from(ev.subrange(0, i as int)) == Err::<Seq<NameV>, DecodeError>(
                err->0,
            ),
        decreases n - i,
    {
        proof {
            assert(ev.subrange(0, i as int + 1).drop_last() =~= ev.subrange(0, i as int));
            assert(ev.subrange(0, i as int + 1).last() == ev[i as int]);
            assert(ev[i as int] == jview(es[i as int]));
        }
        if err.is_none() {
            match name_from_exec(&es[i]) {
                Ok(v) => {
                    let ghost prev = names_view(out);
                    let ghost vv = name_view(v);
                    out.push(v);
                    proof {
                        assert(names_view(out) =~= prev.push(vv));
                    }
                },
                Err(e) => {
                    err = Some(e);
                },
            }
        }
        i = i + 1;
    }
    proof {
        assert(ev.subrange(0, n as int) =~= ev);
    }
    match err {
        None => Ok(out),
        Some(e) => Err(e),
    }
}

fn coding_from_exec(j: &Json) -> (r: Result<VaccineCoding, DecodeError>)
    ensures
        r is Ok <==> coding_from(jview(*j)) is Ok,
        r is Ok ==> coding_view(r->Ok_0) == coding_from(jview(*j))->Ok_0,
        r is Err ==> r->Err_0 == coding_from(jview(*j))->Err_0,
{
    let fs = match j {
        Json::Obj(fs) => fs,
        _ => {
            return Err(DecodeError::SchemaViolation);
        },
    };
    let system: &String = match obj_get_exec(fs, "system") {
        Some(Json::Str(t)) => t,
        _ => {
            return Err(DecodeError::SchemaViolation);
        },
    };
    let code: &String = match obj_get_exec(fs, "code") {
        Some(Json::Str(t)) => t,
        _ => {
            return Err(DecodeError::SchemaViolation);
        },
    };
    Ok(VaccineCoding { system: system.clone(), code: code.clone() })
}

fn codings_from_exec(es: &Vec<Json>) -> (r: Result<Vec<VaccineCoding>, DecodeError>)
    ensures
        r is Ok <==> codings_from(elems_view(*es)) is Ok,
        r is Ok ==> codings_view(r->Ok_0) == codings_from(elems_view(*es))->Ok_0,
        r is Err ==> codings_from(elems_view(*es)) == Err::<Seq<VaccineCodingV>, DecodeError>(
            r->Err_0,
        ),
{
    let ghost ev = elems_view(*es);
    let n = es.len();
    let mut out: Vec<VaccineCoding> = Vec::new();
    let mut err: Option<DecodeError> = None;
    let mut i: usize = 0;
    proof {
        assert(ev.subrange(0, 0) =~= Seq::<JsonV>::empty());
        assert(codings_view(out) =~= Seq::<VaccineCodingV>::empty());
    }
    while i < n
        invariant
            i <= n,
            n == es@.len(),
            ev == elems_view(*es),
            ev.len() == n,
            err is None ==> codings_from(ev.subrange(0, i as int)) == Ok::<
                Seq<VaccineCodingV>,
                DecodeError,
            >(codings_view(out)),
            err is Some ==> codings_from(ev.subrange(0, i as int)) == Err::<
                Seq<VaccineCodingV>,
                DecodeError,
            >(err->0),
        decreases n - i,
    {
        proof {
            assert(ev.subrange(0, i as int + 1).drop_last() =~= ev.subrange(0, i as int));
            assert(ev.subrange(0, i as int + 1).last() == ev[i as int]);
            assert(ev[i as int] == jview(es[i as int]));
        }
        if err.is_none() {
            match coding_from_exec(&es[i]) {
                Ok(v) => {
                    let ghost prev = codings_view(out);
                    let ghost vv = coding_view(v);
                    out.push(v);
                    proof {
                        assert(codings_view(out) =~= prev.push(vv));
                    }
                },
                Err(e) => {
                    err = Some(e);
                },
            }
        }
        i = i + 1;
    }
    proof {
        assert(ev.subrange(0, n as int) =~= ev);
    }
    match err {
        None => Ok(out),
        Some(e) => Err(e),
    }
}

fn vaccine_code_from_exec(j: &Json) -> (r: Result<VaccineCode, DecodeError>)
    ensures
        r is Ok <==> vaccine_code_from(jview(*j)) is Ok,
        r is Ok ==> vaccine_code_view(r->Ok_0) == vaccine_code_from(jview(*j))->Ok_0,
        r is Err ==> r->Err_0 == vaccine_code_from(jview(*j))->Err_0,
{
    let fs = match j {
        Json::Obj(fs) => fs,
        _ => {
            return Err(DecodeError::SchemaViolation);
        },
    };
    let cs: &Vec<Json> = match obj_get_exec(fs, "coding") {
        Some(Json::Arr(a)) => a,
        _ => {
            return Err(DecodeError::SchemaViolation);
        },
    };
    match codings_from_exec(cs) {
        Ok(coding) => Ok(VaccineCode { coding }),
        Err(e) => Err(e),
    }
}

fn patient_ref_from_exec(j: &Json) -> (r: Result<PatientReference, DecodeError>)
    ensures
        r is Ok <==> patient_ref_from(jview(*j)) is Ok,
        r is Ok ==> patient_ref_from(jview(*j))->Ok_0 == (PatientReferenceV {
            reference: r->Ok_0.reference@,
        }),
        r is Err ==> r->Err_0 == patient_ref_from(jview(*j))->Err_0,
{
    let fs = match j {
        Json::Obj(fs) => fs,
        _ => {
            return Err(DecodeError::SchemaViolation);
        },
    };
    let reference: &String = match obj_get_exec(fs, "reference") {
        Some(Json::Str(t)) => t,
        _ => {
            return Err(DecodeError::SchemaViolation);
        },
    };
    Ok(PatientReference { reference: reference.clone() })
}

fn performer_from_exec(j: &Json) -> (r: Result<Performer, DecodeError>)
    ensures
        r is Ok <==> performer_from(jview(*j)) is Ok,
        r is Ok ==> performer_view(r->Ok_0) == performer_from(jview(*j))->Ok_0,
        r is Err ==> r->Err_0 == performer_from(jview(*j))->Err_0,
{
    let fs = match j {
        Json::Obj(fs) => fs,
        _ => {
            return Err(DecodeError::SchemaViolation);
        },
    };
    let afs: &Vec<JsonField> = match obj_get_exec(fs, "actor") {
        Some(Json::Obj(a)) => a,
        _ => {
            return Err(DecodeError::SchemaViolation);
        },
    };
    let display: &String = match obj_get_exec(afs, "display") {
        Some(Json::Str(t)) => t,
        _ => {
            return Err(DecodeError::SchemaViolation);
        },
    };
    Ok(Performer { actor: Actor { display: display.clone() } })
}

fn performers_from_exec(es: &Vec<Json>) -> (r: Result<Vec<Performer>, DecodeError>)
    ensures
        r is Ok <==> performers_from(elems_view(*es)) is Ok,
        r is Ok ==> performers_view(r->Ok_0) == performers_from(elems_view(*es))->Ok_0,
        r is Err ==> performers_from(elems_view(*es)) == Err::<Seq<PerformerV>, DecodeError>(
            r->Err_0,
        ),
{
    let ghost ev = elems_view(*es);
    let n = es.len();
    let mut out: Vec<Performer> = Vec::new();
    let mut err: Option<DecodeError> = None;
    let mut i: usize = 0;
    proof {
        assert(ev.subrange(0, 0) =~= Seq::<JsonV>::empty());
        assert(performers_view(out) =~= Seq::<PerformerV>::empty());
    }
    while i < n
        invariant
            i <= n,
            n == es@.len(),
            ev == elems_view(*es),
            ev.len() == n,
            err is None ==> performers_from(ev.subrange(0, i as int)) == Ok::<
                Seq<PerformerV>,
                DecodeError,
            >(performers_view(out)),
            err is Some ==> performers_from(ev.subrange(0, i as int)) == Err::<
                Seq<PerformerV>,
                DecodeError,
            >(err->0),
        decreases n - i,
    {
        proof {
            assert(ev.subrange(0, i as int + 1).drop_last() =~= ev.subrange(0, i as int));
            assert(ev.subrange(0, i as int + 1).last() == ev[i as int]);
            assert(ev[i as int] == jview(es[i as int]));
        }
        if err.is_none() {
            match performer_from_exec(&es[i]) {
                Ok(v) => {
                    let ghost prev = performers_view(out);
                    let ghost vv = performer_view(v);
                    out.push(v);
                    proof {
                        assert(performers_view(out) =~= prev.push(vv));
                    }
                },
                Err(e) => {
                    err = Some(e);
                },
            }
        }
        i = i + 1;
    }
    proof {
        assert(ev.subrange(0, n as int) =~= ev);
    }
    match err {
        None => Ok(out),
        Some(e) => Err(e),
    }
}

fn patient_from_exec(fs: &Vec<JsonField>) -> (r: Result<Resource, DecodeError>)
    ensures
        r is Ok <==> patient_resource_from(fields_view(*fs)) is Ok,
        r is Ok ==> resource_view(r->Ok_0) == patient_resource_from(fields_view(*fs))->Ok_0,
        r is Err ==> r->Err_0 == patient_resource_from(fields_view(*fs))->Err_0,
{
    let ns: &Vec<Json> = match obj_get_exec(fs, "name") {
        Some(Json::Arr(a)) => a,
        _ => {
            return Err(DecodeError::SchemaViolation);
        },
    };
    let birth_date: &String = match obj_get_exec(fs, "birthDate") {
        Some(Json::Str(t)) => t,
        _ => {
            return Err(DecodeError::SchemaViolation);
        },
    };
    match names_from_exec(ns) {
        Ok(name) => Ok(Resource::Patient { name, birth_date: birth_date.clone() }),
        Err(e) => Err(e),
    }
}

fn immunization_from_exec(fs: &Vec<JsonField>) -> (r: Result<Resource, DecodeError>)
    ensures
        r is Ok <==> immunization_resource_from(fields_view(*fs)) is Ok,
        r is Ok ==> resource_view(r->Ok_0) == immunization_resource_from(fields_view(*fs))->Ok_0,
        r is Err ==> r->Err_0 == immunization_resource_from(fields_view(*fs))->Err_0,
{
    let lot_number: &String = match obj_get_exec(fs, "lotNumber") {
        Some(Json::Str(t)) => t,
        _ => {
            return Err(DecodeError::SchemaViolation);
        },
    };
    let status: &String = match obj_get_exec(fs, "status") {
        Some(Json::Str(t)) => t,
        _ => {
            return Err(DecodeError::SchemaViolation);
        },
    };
    let vcj: &Json = match obj_get_exec(fs, "vaccineCode") {
        Some(v) => v,
        None => {
            return Err(DecodeError::SchemaViolation);
        },
    };
    let pj: &Json = match obj_get_exec(fs, "patient") {
        Some(v) => v,
        None => {
            return Err(DecodeError::SchemaViolation);
        },
    };
    let odt: &String = match obj_get_exec(fs, "occurrenceDateTime") {
        Some(Json::Str(t)) => t,
        _ => {
            return Err(DecodeError::SchemaViolation);
        },
    };
    let psj: &Vec<Json> = match obj_get_exec(fs, "performer") {
        Some(Json::Arr(a)) => a,
        _ => {
            return Err(DecodeError::SchemaViolation);
        },
    };
    let vaccine_code = match vaccine_code_from_exec(vcj) {
        Ok(v) => v,
        Err(e) => {
            return Err(e);
        },
    };
    let patient = match patient_ref_from_exec(pj) {
        Ok(v) => v,
        Err(e) => {
            return Err(e);
        },
    };
    let performer = match performers_from_exec(psj) {
        Ok(v) => v,
        Err(e) => {
            return Err(e);
        },
    };
    Ok(
        Resource::Immunization {
            lot_number: lot_number.clone(),
            status: status.clone(),
            vaccine_code,
            patient,
            occurrence_date_time: odt.clone(),
            performer,
        },
    )
}

fn resource_from_exec(j: &Json) -> (r: Result<Resource, DecodeError>)
    ensures
        r is Ok <==> resource_from(jview(*j)) is Ok,
        r is Ok ==> resource_view(r->Ok_0) == resource_from(jview(*j))->Ok_0,
        r is Err ==> r->Err_0 == resource_from(jview(*j))->Err_0,
{
    let fs = match j {
        Json::Obj(fs) => fs,
        _ => {
            return Err(DecodeError::SchemaViolation);
        },
    };
    let t: &String = match obj_get_exec(fs, "resourceType") {
        Some(Json::Str(t)) => t,
        _ => {
            return Err(DecodeError::SchemaViolation);
        },
    };
    if str_eq(t.as_str(), "Patient") {
        patient_from_exec(fs)
    } else if str_eq(t.as_str(), "Immunization") {
        immunization_from_exec(fs)
    } else {
        Err(DecodeError::UnknownResourceType)
    }
}

fn entry_from_exec(j: &Json) -> (r: Result<Entry, DecodeError>)
    ensures
        r is Ok <==> entry_from(jview(*j)) is Ok,
        r is Ok ==> entry_view(r->Ok_0) == entry_from(jview(*j))->Ok_0,
        r is Err ==> r->Err_0 == entry_from(jview(*j))->Err_0,
{
    let fs = match j {
        Json::Obj(fs) => fs,
        _ => {
            return Err(DecodeError::SchemaViolation);
        },
    };
    let full_url: &String = match obj_get_exec(fs, "fullUrl") {
        Some(Json::Str(t)) => t,
        _ => {
            return Err(DecodeError::SchemaViolation);
        },
    };
    let rj: &Json = match obj_get_exec(fs, "resource") {
        Some(v) => v,
        None => {
            return Err(DecodeError::SchemaViolation);
        },
    };
    match resource_from_exec(rj) {
        Ok(resource) => Ok(Entry { full_url: full_url.clone(), resource }),
        Err(e) => Err(e),
    }
}

fn entries_from_exec(es: &Vec<Json>) -> (r: Result<Vec<Entry>, DecodeError>)
    ensures
        r is Ok <==> entries_from(elems_view(*es)) is Ok,
        r is Ok ==> entries_view(r->Ok_0) == entries_from(elems_view(*es))->Ok_0,
        r is Err ==> entries_from(elems_view(*es)) == Err::<Seq<EntryV>, DecodeError>(r->Err_0),
{
    let ghost ev = elems_view(*es);
    let n = es.len();
    let mut out: Vec<Entry> = Vec::new();
    let mut err: Option<DecodeError> = None;
    let mut i: usize = 0;
    proof {
        assert(ev.subrange(0, 0) =~= Seq::<JsonV>::empty());
        assert(entries_view(out) =~= Seq::<EntryV>::empty());
    }
    while i < n
        invariant
            i <= n,
            n == es@.len(),
            ev == elems_view(*es),
            ev.len() == n,
            err is None ==> entries_from(ev.subrange(0, i as int)) == Ok::<
                Seq<EntryV>,
                DecodeError,
            >(entries_view(out)),
            err is Some ==> entries_from(ev.subrange(0, i as int)) == Err::<
                Seq<EntryV>,
                DecodeError,
            >(err->0),
        decreases n - i,
    {
        proof {
            assert(ev.subrange(0, i as int + 1).drop_last() =~= ev.subrange(0, i as int));
            assert(ev.subrange(0, i as int + 1).last() == ev[i as int]);
            assert(ev[i as int] == jview(es[i as int]));
        }
        if err.is_none() {
            match entry_from_exec(&es[i]) {
                Ok(v) => {
                    let ghost prev = entries_view(out);
                    let ghost vv = entry_view(v);
                    out.push(v);
                    proof {
                        assert(entries_view(out) =~= prev.push(vv));
                    }
                },
                Err(e) => {
                    err = Some(e);
                },
            }
        }
        i = i + 1;
    }
    proof {
        assert(ev.subrange(0, n as int) =~= ev);
    }
    match err {
        None => Ok(out),
        Some(e) => Err(e),
    }
}

fn bundle_from_exec(j: &Json) -> (r: Result<FhirBundle, DecodeError>)
    ensures
        r is Ok <==> bundle_from(jview(*j)) is Ok,
        r is Ok ==> bundle_view(r->Ok_0) == bundle_from(jview(*j))->Ok_0,
        r is Err ==> r->Err_0 == bundle_from(jview(*j))->Err_0,
{
    let fs = match j {
        Json::Obj(fs) => fs,
        _ => {
            return Err(DecodeError::SchemaViolation);
        },
    };
    let resource_type: &String = match obj_get_exec(fs, "resourceType") {
        Some(Json::Str(t)) => t,
        _ => {
            return Err(DecodeError::SchemaViolation);
        },
    };
    let bundle_type: &String = match obj_get_exec(fs, "type") {
        Some(Json::Str(t)) => t,
        _ => {
            return Err(DecodeError::SchemaViolation);
        },
    };
    let es: &Vec<Json> = match obj_get_exec(fs, "entry") {
        Some(Json::Arr(a)) => a,
        _ => {
            return Err(DecodeError::SchemaViolation);
        },
    };
    match entries_from_exec(es) {
        Ok(entry) => Ok(
            FhirBundle {
                resource_type: resource_type.clone(),
                bundle_type: bundle_type.clone(),
                entry,
            },
        ),
        Err(e) => Err(e),
    }
}

fn credential_subject_from_exec(j: &Json) -> (r: Result<CredentialSubject, DecodeError>)
    ensures
        r is Ok <==> credential_subject_from(jview(*j)) is Ok,
        r is Ok ==> credential_subject_from(jview(*j))->Ok_0 == (CredentialSubjectV {
            fhir_version: r->Ok_0.fhir_version@,
            fhir_bundle: bundle_view(r->Ok_0.fhir_bundle),
        }),
        r is Err ==> r->Err_0 == credential_subject_from(jview(*j))->Err_0,
{
    let fs = match j {
        Json::Obj(fs) => fs,
        _ => {
            return Err(DecodeError::SchemaViolation);
        },
    };
    let fhir_version: &String = match obj_get_exec(fs, "fhirVersion") {
        Some(Json::Str(t)) => t,
        _ => {
            return Err(DecodeError::SchemaViolation);
        },
    };
    let bj: &Json = match obj_get_exec(fs, "fhirBundle") {
        Some(v) => v,
        None => {
            return Err(DecodeError::SchemaViolation);
        },
    };
    match bundle_from_exec(bj) {
        Ok(fhir_bundle) => Ok(
            CredentialSubject { fhir_version: fhir_version.clone(), fhir_bundle },
        ),
        Err(e) => Err(e),
    }
}

fn vc_from_exec(j: &Json) -> (r: Result<Vc, DecodeError>)
    ensures
        r is Ok <==> vc_from(jview(*j)) is Ok,
        r is Ok ==> vc_from(jview(*j))->Ok_0 == (VcV {
            types: strs_view(r->Ok_0.types),
            credential_subject: CredentialSubjectV {
                fhir_version: r->Ok_0.credential_subject.fhir_version@,
                fhir_bundle: bundle_view(r->Ok_0.credential_subject.fhir_bundle),
            },
        }),
        r is Err ==> r->Err_0 == vc_from(jview(*j))->Err_0,
{
    let fs = match j {
        Json::Obj(fs) => fs,
        _ => {
            return Err(DecodeError::SchemaViolation);
        },
    };
    let ts: &Vec<Json> = match obj_get_exec(fs, "type") {
        Some(Json::Arr(a)) => a,
        _ => {
            return Err(DecodeError::SchemaViolation);
        },
    };
    let csj: &Json = match obj_get_exec(fs, "credentialSubject") {
        Some(v) => v,
        None => {
            return Err(DecodeError::SchemaViolation);
        },
    };
    let types = match strings_from_exec(ts) {
        Some(v) => v,
        None => {
            return Err(DecodeError::SchemaViolation);
        },
    };
    match credential_subject_from_exec(csj) {
        Ok(credential_subject) => Ok(Vc { types, credential_subject }),
        Err(e) => Err(e),
    }
}

/// Decodes one parsed JSON value into the typed top-level record.
pub fn decode_body(j: &Json) -> (r: Result<Body, DecodeError>)
    ensures
        r is Ok <==> body_from(jview(*j)) is Ok,
        r is Ok ==> body_view(r->Ok_0) == body_from(jview(*j))->Ok_0,
        r is Err ==> body_from(jview(*j)) == Err::<BodyV, DecodeError>(r->Err_0),
{
    let fs = match j {
        Json::Obj(fs) => fs,
        _ => {
            return Err(DecodeError::SchemaViolation);
        },
    };
    let iss: &String = match obj_get_exec(fs, "iss") {
        Some(Json::Str(t)) => t,
        _ => {
            return Err(DecodeError::SchemaViolation);
        },
    };
    let lit: &String = match obj_get_exec(fs, "nbf") {
        Some(Json::Num(t)) => t,
        _ => {
            return Err(DecodeError::SchemaViolation);
        },
    };
    let vj: &Json = match obj_get_exec(fs, "vc") {
        Some(v) => v,
        None => {
            return Err(DecodeError::SchemaViolation);
        },
    };
    let nbf = match nbf_from_lit(lit) {
        Some(v) => v,
        None => {
            return Err(DecodeError::SchemaViolation);
        },
    };
    match vc_from_exec(vj) {
        Ok(vc) => Ok(Body { iss: iss.clone(), nbf, vc }),
        Err(e) => Err(e),
    }
}

/// Decodes a whole JSON text into the typed top-level record: a schema
/// violation when the text is not well-formed JSON, and otherwise exactly
/// the strict structural decoding of its document.
pub fn decode_body_text(text: &str) -> (r: Result<Body, DecodeError>)
    ensures
        r is Ok <==> body_from_text(text@) is Ok,
        r is Ok ==> body_view(r->Ok_0) == body_from_text(text@)->Ok_0,
        r is Err ==> body_from_text(text@) == Err::<BodyV, DecodeError>(r->Err_0),
{
    let chars = crate::json::str_to_chars(text);
    match crate::json::parse_json_text(&chars) {
        None => Err(DecodeError::SchemaViolation),
        Some(j) => decode_body(&j),
    }
}

} // verus!
