//! Translation of Poetry version constraints into PEP 440 specifier sets.
//!
//! The grammar Poetry accepts is wider than PEP 440: it allows caret (`^`) and
//! tilde (`~`) shorthands, bare `*` wildcards, `=` for equality, and clauses
//! separated by spaces instead of commas. The translator turns any of those
//! into one canonical, comma-joined PEP 440 specifier set, or reports which
//! part of the input it had to give up on.

use crate::pep440;
use crate::text;
use crate::text::{
    spec_contains_char, spec_format_release, spec_join, spec_replace_char, spec_split, spec_trim,
};
use vstd::prelude::*;

verus! {

/// A Poetry constraint translated into PEP 440 form.
#[derive(Debug)]
pub enum PoetryPep440 {
    /// A constraint already written as a PEP 440 specifier set.
    Verbatim(String),
    /// A compatible-release constraint, `~=V`.
    Compatible(String),
    /// An exact match, `==V`.
    Matching(String),
    /// An inclusive lower and exclusive upper bound, `>=L,<U`.
    Inclusive(String, String),
}

impl View for PoetryPep440 {
    type V = Seq<char>;

    open spec fn view(&self) -> Seq<char> {
        match self {
            PoetryPep440::Verbatim(s) => s@,
            PoetryPep440::Compatible(v) => seq!['~', '='] + v@,
            PoetryPep440::Matching(v) => seq!['=', '='] + v@,
            PoetryPep440::Inclusive(l, u) => seq!['>', '='] + l@ + seq![',', '<'] + u@,
        }
    }
}

#[derive(Clone, Copy, PartialEq, Eq, Debug)]
pub enum VersionErrorKind {
    /// The constraint uses OR syntax (`||`), which PEP 440 cannot express.
    Syntax,
    /// A clause was still invalid after translation.
    Parse,
}

/// Why a constraint could not be translated, and the text it failed on.
#[derive(Debug, PartialEq, Eq)]
pub struct ParsePep440Error {
    pub kind: VersionErrorKind,
    pub detail: String,
}

impl ParsePep440Error {
    /// A readable account of the failure.
    pub fn message(&self) -> (r: String)
        ensures
            self.kind is Syntax ==> r@ == spec_syntax_message(self.detail@),
            self.kind is Parse ==> r@ == spec_parse_message(self.detail@),
    {
        let mut out: Vec<char> = Vec::new();
        match self.kind {
            VersionErrorKind::Syntax => {
                text::append_str(&mut out, "Version specifier \"");
                text::append_str(&mut out, self.detail.as_str());
                text::append_str(
                    &mut out,
                    "\" contains an OR operator (\"||\"), which cannot be expressed with PEP 440.",
                );
                proof {
                    assert(out@ =~= spec_syntax_message(self.detail@));
                }
            },
            VersionErrorKind::Parse => {
                text::append_str(&mut out, "Could not parse \"");
                text::append_str(&mut out, self.detail.as_str());
                text::append_str(&mut out, "\" as a PEP 440 version specifier set.");
                proof {
                    assert(out@ =~= spec_parse_message(self.detail@));
                }
            },
        }
        text::string_from_chars(&out)
    }

    /// The message of the failure, naming the dependency it came from.
    pub fn message_for(&self, name: &str) -> (r: String)
        ensures
            forall|e: TranslateResult|
                error_matches(e, *self) ==> r@ == spec_named_message(name@, e),
    {
        let mut out: Vec<char> = Vec::new();
        text::append_str(&mut out, "Failed to convert the version constraint of \"");
        text::append_str(&mut out, name);
        text::append_str(&mut out, "\": ");
        let body = self.message();
        text::append_chars(&mut out, &text::chars_of(body.as_str()));
        proof {
            assert forall|e: TranslateResult| error_matches(e, *self) implies out@
                == spec_named_message(name@, e) by {
                assert(spec_message_of(*self) == spec_error_body(e));
                assert(out@ =~= spec_named_message(name@, e));
            }
        }
        text::string_from_chars(&out)
    }
}

/// The message of an error value.
pub open spec fn spec_message_of(pe: ParsePep440Error) -> Seq<char> {
    match pe.kind {
        VersionErrorKind::Syntax => spec_syntax_message(pe.detail@),
        VersionErrorKind::Parse => spec_parse_message(pe.detail@),
    }
}

/// Whether an error value reports the given translation outcome.
pub open spec fn error_matches(e: TranslateResult, pe: ParsePep440Error) -> bool {
    match e {
        TranslateResult::Done(_) => false,
        TranslateResult::Syntax(c) => pe.kind is Syntax && pe.detail@ == c,
        TranslateResult::Parse(o) => pe.kind is Parse && pe.detail@ == o,
    }
}

/// The message body a translation failure carries.
pub open spec fn spec_error_body(e: TranslateResult) -> Seq<char> {
    match e {
        TranslateResult::Done(_) => Seq::empty(),
        TranslateResult::Syntax(c) => spec_syntax_message(c),
        TranslateResult::Parse(o) => spec_parse_message(o),
    }
}

/// The message of a failure, naming the dependency it came from.
pub open spec fn spec_named_message(name: Seq<char>, e: TranslateResult) -> Seq<char> {
    "Failed to convert the version constraint of \""@ + name + "\": "@ + spec_error_body(e)
}

pub open spec fn spec_syntax_message(detail: Seq<char>) -> Seq<char> {
    "Version specifier \""@ + detail
        + "\" contains an OR operator (\"||\"), which cannot be expressed with PEP 440."@
}

pub open spec fn spec_parse_message(detail: Seq<char>) -> Seq<char> {
    "Could not parse \""@ + detail + "\" as a PEP 440 version specifier set."@
}

/// The exclusive upper bound of a caret constraint: increment the first
/// nonzero release component and drop what follows, with the special case of
/// a three-component release below one tenth (`0.0.z` bounds at `0.0.z+1`).
/// `None` when the release is empty or the incremented component cannot grow.
pub open spec fn caret_upper(rel: Seq<u64>) -> Option<Seq<u64>> {
    if rel.len() == 3 && rel[0] == 0 && rel[1] == 0 {
        if rel[2] < u64::MAX {
            Some(seq![0u64, 0u64, (rel[2] + 1) as u64])
        } else {
            None
        }
    } else if rel.len() >= 2 && rel[0] == 0 {
        if rel[1] < u64::MAX {
            Some(seq![0u64, (rel[1] + 1) as u64])
        } else {
            None
        }
    } else if rel.len() >= 1 {
        if rel[0] < u64::MAX {
            Some(seq![(rel[0] + 1) as u64])
        } else {
            None
        }
    } else {
        None
    }
}

/// The text a caret constraint on version `v` translates to: an inclusive
/// lower bound at `v` and an exclusive upper bound from `caret_upper`.
/// `None` when `v` is not a version or no upper bound exists.
pub open spec fn spec_caret(v: Seq<char>) -> Option<Seq<char>> {
    if !pep440::pep440_version_ok(v) {
        None
    } else {
        let rel = pep440::pep440_version_release(v);
        if rel.len() == 0 {
            Some(Seq::empty())
        } else {
            match caret_upper(rel) {
                Some(up) => Some(
                    seq!['>', '='] + pep440::pep440_version_display(v) + seq![',', '<']
                        + spec_format_release(up),
                ),
                None => None,
            }
        }
    }
}

/// The text a tilde constraint on version `v` translates to: a compatible
/// release for three or more components, otherwise a bound at the next minor
/// (two components) or the next major (one component).
pub open spec fn spec_tilde(v: Seq<char>) -> Option<Seq<char>> {
    if !pep440::pep440_version_ok(v) {
        None
    } else {
        let rel = pep440::pep440_version_release(v);
        let disp = pep440::pep440_version_display(v);
        if rel.len() >= 3 {
            Some(seq!['~', '='] + disp)
        } else if rel.len() == 2 {
            if rel[1] < u64::MAX {
                Some(
                    seq!['>', '='] + disp + seq![',', '<'] + spec_format_release(
                        seq![rel[0], (rel[1] + 1) as u64],
                    ),
                )
            } else {
                None
            }
        } else if rel.len() == 1 {
            if rel[0] < u64::MAX {
                Some(
                    seq!['>', '='] + disp + seq![',', '<'] + spec_format_release(
                        seq![(rel[0] + 1) as u64],
                    ),
                )
            } else {
                None
            }
        } else {
            Some(Seq::empty())
        }
    }
}

/// One comma-separated clause translated to PEP 440 text, `orig` being the
/// whole constraint: a valid clause passes through, `*` matches everything,
/// caret and tilde expand, `=` becomes `==`, and anything unrecognized falls
/// back to pinning the entire original constraint exactly.
pub open spec fn spec_translate_clause(cl: Seq<char>, orig: Seq<char>) -> Seq<char> {
    let c = spec_trim(cl);
    if pep440::pep440_specs_ok(c) {
        c
    } else if c == seq!['*'] {
        Seq::empty()
    } else if c.len() > 0 && c[0] == '^' {
        match spec_caret(spec_trim(c.drop_first())) {
            Some(t) => t,
            None => seq!['=', '='] + orig,
        }
    } else if c.len() > 0 && c[0] == '~' {
        match spec_tilde(spec_trim(c.drop_first())) {
            Some(t) => t,
            None => seq!['=', '='] + orig,
        }
    } else if c.len() > 0 && c[0] == '=' {
        seq!['=', '='] + c.drop_first()
    } else {
        seq!['=', '='] + orig
    }
}

/// All clauses translated in order; the first clause holding an OR bar stops
/// the translation and is reported.
pub open spec fn translate_clauses(cls: Seq<Seq<char>>, orig: Seq<char>) -> Result<
    Seq<Seq<char>>,
    Seq<char>,
>
    decreases cls.len(),
{
    if cls.len() == 0 {
        Ok(Seq::empty())
    } else if spec_contains_char(spec_trim(cls[0]), '|') {
        Err(spec_trim(cls[0]))
    } else {
        match translate_clauses(cls.drop_first(), orig) {
            Ok(rest) => Ok(seq![spec_translate_clause(cls[0], orig)] + rest),
            Err(e) => Err(e),
        }
    }
}

/// What the translator answers for a raw constraint string.
pub enum TranslateResult {
    /// The canonical specifier set.
    Done(Seq<char>),
    /// A clause used OR syntax; the clause is carried.
    Syntax(Seq<char>),
    /// The translated text still fails to parse; the trimmed input is carried.
    Parse(Seq<char>),
}

/// The whole translation: pass a valid set through unchanged, else retry with
/// spaces turned into commas, else translate clause by clause and check that
/// the joined result parses.
pub open spec fn spec_translate(s: Seq<char>) -> TranslateResult {
    let t = spec_trim(s);
    if pep440::pep440_specs_ok(t) {
        TranslateResult::Done(t)
    } else {
        let n = spec_replace_char(t, ' ', ',');
        if n != t && pep440::pep440_specs_ok(n) {
            TranslateResult::Done(n)
        } else {
            match translate_clauses(spec_split(t, ','), t) {
                Err(cl) => TranslateResult::Syntax(cl),
                Ok(parts) => {
                    let j = spec_trim(spec_join(parts, ','));
                    if pep440::pep440_specs_ok(j) {
                        TranslateResult::Done(j)
                    } else {
                        TranslateResult::Parse(t)
                    }
                },
            }
        }
    }
}

fn caret_upper_exec(rel: &Vec<u64>) -> (r: Option<Vec<u64>>)
    ensures
        match r {
            Some(up) => caret_upper(rel@) == Some(up@),
            None => caret_upper(rel@) is None,
        },
{
    if rel.len() == 3 && rel[0] == 0 && rel[1] == 0 {
        if rel[2] < u64::MAX {
            let mut up: Vec<u64> = Vec::new();
            up.push(0);
            up.push(0);
            up.push(rel[2] + 1);
            proof {
                assert(up@ =~= seq![0u64, 0u64, (rel@[2] + 1) as u64]);
            }
            Some(up)
        } else {
            None
        }
    } else if rel.len() >= 2 && rel[0] == 0 {
        if rel[1] < u64::MAX {
            let mut up: Vec<u64> = Vec::new();
            up.push(0);
            up.push(rel[1] + 1);
            proof {
                assert(up@ =~= seq![0u64, (rel@[1] + 1) as u64]);
            }
            Some(up)
        } else {
            None
        }
    } else if rel.len() >= 1 {
        if rel[0] < u64::MAX {
            let mut up: Vec<u64> = Vec::new();
            up.push(rel[0] + 1);
            proof {
                assert(up@ =~= seq![(rel@[0] + 1) as u64]);
            }
            Some(up)
        } else {
            None
        }
    } else {
        None
    }
}

impl PoetryPep440 {
    /// The constraint written out as PEP 440 text.
    pub fn to_string(&self) -> (r: String)
        ensures
            r@ == self@,
    {
        match self {
            PoetryPep440::Verbatim(s) => s.clone(),
            PoetryPep440::Compatible(v) => {
                let mut out: Vec<char> = Vec::new();
                out.push('~');
                out.push('=');
                text::append_str(&mut out, v.as_str());
                proof {
                    assert(out@ =~= seq!['~', '='] + v@);
                }
                text::string_from_chars(&out)
            },
            PoetryPep440::Matching(v) => {
                let mut out: Vec<char> = Vec::new();
                out.push('=');
                out.push('=');
                text::append_str(&mut out, v.as_str());
                proof {
                    assert(out@ =~= seq!['=', '='] + v@);
                }
                text::string_from_chars(&out)
            },
            PoetryPep440::Inclusive(l, u) => {
                let mut out: Vec<char> = Vec::new();
                out.push('>');
                out.push('=');
                text::append_str(&mut out, l.as_str());
                out.push(',');
                out.push('<');
                text::append_str(&mut out, u.as_str());
                proof {
                    assert(out@ =~= seq!['>', '='] + l@ + seq![',', '<'] + u@);
                }
                text::string_from_chars(&out)
            },
        }
    }

    /// Translate a caret shorthand on the given version text.
    fn from_caret(ver: &Vec<char>) -> (r: Option<PoetryPep440>)
        ensures
            match r {
                Some(p) => spec_caret(ver@) == Some(p@),
                None => spec_caret(ver@) is None,
            },
    {
        let vs = text::string_from_chars(ver);
        match pep440::version_parts(vs.as_str()) {
            None => None,
            Some((disp, rel)) => {
                if rel.len() == 0 {
                    Some(PoetryPep440::Verbatim(String::new()))
                } else {
                    match caret_upper_exec(&rel) {
                        None => None,
                        Some(up) => {
                            let upper = text::string_from_chars(&text::format_release(&up));
                            Some(PoetryPep440::Inclusive(disp, upper))
                        },
                    }
                }
            },
        }
    }

    /// Translate a tilde shorthand on the given version text.
    fn from_tilde(ver: &Vec<char>) -> (r: Option<PoetryPep440>)
        ensures
            match r {
                Some(p) => spec_tilde(ver@) == Some(p@),
                None => spec_tilde(ver@) is None,
            },
    {
        let vs = text::string_from_chars(ver);
        match pep440::version_parts(vs.as_str()) {
            None => None,
            Some((disp, rel)) => {
                if rel.len() >= 3 {
                    Some(PoetryPep440::Compatible(disp))
                } else if rel.len() == 2 {
                    if rel[1] < u64::MAX {
                        let mut up: Vec<u64> = Vec::new();
                        up.push(rel[0]);
                        up.push(rel[1] + 1);
                        proof {
                            assert(up@ =~= seq![rel@[0], (rel@[1] + 1) as u64]);
                        }
                        let upper = text::string_from_chars(&text::format_release(&up));
                        Some(PoetryPep440::Inclusive(disp, upper))
                    } else {
                        None
                    }
                } else if rel.len() == 1 {
                    if rel[0] < u64::MAX {
                        let mut up: Vec<u64> = Vec::new();
                        up.push(rel[0] + 1);
                        proof {
                            assert(up@ =~= seq![(rel@[0] + 1) as u64]);
                        }
                        let upper = text::string_from_chars(&text::format_release(&up));
                        Some(PoetryPep440::Inclusive(disp, upper))
                    } else {
                        None
                    }
                } else {
                    Some(PoetryPep440::Verbatim(String::new()))
                }
            },
        }
    }
}

/// One clause translated to text; the clause must be free of OR bars.
fn clause_text(cl: &Vec<char>, orig: &Vec<char>) -> (r: Vec<char>)
    ensures
        r@ == spec_translate_clause(cl@, orig@),
{
    let ct = text::trim_chars(cl);
    let cts = text::string_from_chars(&ct);
    if pep440::specifiers_valid(cts.as_str()) {
        return ct;
    }
    if text::chars_eq_str(&ct, "*") {
        proof {
            reveal_strlit("*");
            assert(ct@ =~= seq!['*']);
        }
        return Vec::new();
    }
    proof {
        reveal_strlit("*");
        if ct@.len() == 1 && ct@[0] == '*' {
            assert(ct@ =~= "*"@);
        }
    }
    if ct.len() > 0 && ct[0] == '^' {
        let tail = text::tail_chars(&ct);
        let ver = text::trim_chars(&tail);
        match PoetryPep440::from_caret(&ver) {
            Some(p) => {
                return text::chars_of(p.to_string().as_str());
            },
            None => {
                let mut out: Vec<char> = Vec::new();
                out.push('=');
                out.push('=');
                text::append_chars(&mut out, orig);
                proof {
                    assert(out@ =~= seq!['=', '='] + orig@);
                }
                return out;
            },
        }
    }
    if ct.len() > 0 && ct[0] == '~' {
        let tail = text::tail_chars(&ct);
        let ver = text::trim_chars(&tail);
        match PoetryPep440::from_tilde(&ver) {
            Some(p) => {
                return text::chars_of(p.to_string().as_str());
            },
            None => {
                let mut out: Vec<char> = Vec::new();
                out.push('=');
                out.push('=');
                text::append_chars(&mut out, orig);
                proof {
                    assert(out@ =~= seq!['=', '='] + orig@);
                }
                return out;
            },
        }
    }
    if ct.len() > 0 && ct[0] == '=' {
        let tail = text::tail_chars(&ct);
        let mut out: Vec<char> = Vec::new();
        out.push('=');
        out.push('=');
        text::append_chars(&mut out, &tail);
        proof {
            assert(out@ =~= seq!['=', '='] + ct@.drop_first());
        }
        return out;
    }
    let mut out: Vec<char> = Vec::new();
    out.push('=');
    out.push('=');
    text::append_chars(&mut out, orig);
    proof {
        assert(out@ =~= seq!['=', '='] + orig@);
    }
    out
}

proof fn lemma_clauses_ok(cls: Seq<Seq<char>>, orig: Seq<char>)
    requires
        forall|k: int| 0 <= k < cls.len() ==> !spec_contains_char(spec_trim(cls[k]), '|'),
    ensures
        translate_clauses(cls, orig) == Ok::<_, Seq<char>>(
            cls.map_values(|c: Seq<char>| spec_translate_clause(c, orig)),
        ),
    decreases cls.len(),
{
    let f = |c: Seq<char>| spec_translate_clause(c, orig);
    if cls.len() == 0 {
        assert(cls.map_values(f) =~= Seq::<Seq<char>>::empty());
    } else {
        assert(forall|k: int|
            0 <= k < cls.drop_first().len() ==> !spec_contains_char(
                spec_trim(cls.drop_first()[k]),
                '|',
            ));
        lemma_clauses_ok(cls.drop_first(), orig);
        assert(cls.map_values(f) =~= seq![f(cls[0])] + cls.drop_first().map_values(f));
    }
}

proof fn lemma_clauses_err(cls: Seq<Seq<char>>, orig: Seq<char>, b: int)
    requires
        0 <= b < cls.len(),
        spec_contains_char(spec_trim(cls[b]), '|'),
        forall|k: int| 0 <= k < b ==> !spec_contains_char(spec_trim(cls[k]), '|'),
    ensures
        translate_clauses(cls, orig) == Err::<Seq<Seq<char>>, _>(spec_trim(cls[b])),
    decreases b,
{
    if b > 0 {
        lemma_clauses_err(cls.drop_first(), orig, b - 1);
    }
}

impl PoetryPep440 {
    /// Translate a raw Poetry constraint into a canonical PEP 440 specifier
    /// set, or say which part had no translation.
    pub fn from_str(s: &str) -> (r: Result<PoetryPep440, ParsePep440Error>)
        ensures
            match spec_translate(s@) {
                TranslateResult::Done(t) => (r matches Ok(p) && p@ == t),
                TranslateResult::Syntax(c) => (r matches Err(e) && e.kind is Syntax && e.detail@
                    == c),
                TranslateResult::Parse(o) => (r matches Err(e) && e.kind is Parse && e.detail@
                    == o),
            },
    {
        let t = text::trim_str(s);
        let ts = text::string_from_chars(&t);
        if pep440::specifiers_valid(ts.as_str()) {
            return Ok(PoetryPep440::Verbatim(ts));
        }
        let n = text::replace_char(&t, ' ', ',');
        if !text::chars_eq(&n, &t) {
            let ns = text::string_from_chars(&n);
            if pep440::specifiers_valid(ns.as_str()) {
                return Ok(PoetryPep440::Verbatim(ns));
            }
        }
        let clauses = text::split_char(&t, ',');
        let nclauses = clauses.len();
        let ghost cv = clauses.deep_view();
        let mut parts: Vec<Vec<char>> = Vec::new();
        let mut i: usize = 0;
        proof {
            assert(parts.deep_view() =~= cv.take(0).map_values(
                |c: Seq<char>| spec_translate_clause(c, t@),
            ));
        }
        while i < nclauses
            invariant
                0 <= i <= nclauses,
                nclauses == clauses@.len(),
                cv == clauses.deep_view(),
                cv.len() == nclauses,
                t@ == spec_trim(s@),
                cv == spec_split(spec_trim(s@), ','),
                !pep440::pep440_specs_ok(spec_trim(s@)),
                spec_replace_char(t@, ' ', ',') == t@ || !pep440::pep440_specs_ok(
                    spec_replace_char(t@, ' ', ','),
                ),
                forall|k: int| 0 <= k < i ==> !spec_contains_char(spec_trim(cv[k]), '|'),
                parts.deep_view() == cv.take(i as int).map_values(
                    |c: Seq<char>| spec_translate_clause(c, t@),
                ),
            decreases nclauses - i,
        {
            let cl = &clauses[i];
            proof {
                text::lemma_chars_deep_view(cl);
                assert(cl@ == cv[i as int]);
            }
            let ct = text::trim_chars(cl);
            if text::contains_char(&ct, '|') {
                proof {
                    lemma_clauses_err(cv, t@, i as int);
                    assert(spec_split(spec_trim(s@), ',') == cv);
                    assert(translate_clauses(spec_split(spec_trim(s@), ','), spec_trim(s@))
                        == Err::<Seq<Seq<char>>, Seq<char>>(spec_trim(cv[i as int])));
                    assert(spec_translate(s@) == TranslateResult::Syntax(spec_trim(cv[i as int])));
                    assert(ct@ == spec_trim(cv[i as int]));
                }
                return Err(
                    ParsePep440Error {
                        kind: VersionErrorKind::Syntax,
                        detail: text::string_from_chars(&ct),
                    },
                );
            }
            let txt = clause_text(cl, &t);
            proof {
                text::lemma_chars_deep_view(&txt);
            }
            let ghost old_parts = parts.deep_view();
            parts.push(txt);
            i += 1;
            proof {
                assert(parts.deep_view() =~= old_parts.push(spec_translate_clause(cv[i - 1], t@)));
                assert(parts.deep_view() =~= cv.take(i as int).map_values(
                    |c: Seq<char>| spec_translate_clause(c, t@),
                ));
            }
        }
        proof {
            assert(cv.take(nclauses as int) =~= cv);
            lemma_clauses_ok(cv, t@);
        }
        let joined = text::join_chars(&parts, ',');
        let jt = text::trim_chars(&joined);
        let js = text::string_from_chars(&jt);
        if pep440::specifiers_valid(js.as_str()) {
            Ok(PoetryPep440::Verbatim(js))
        } else {
            Err(
                ParsePep440Error {
                    kind: VersionErrorKind::Parse,
                    detail: text::string_from_chars(&t),
                },
            )
        }
    }
}

/// One specifier rendered as an environment-marker comparison.
pub open spec fn spec_marker_part(p: (Seq<char>, Seq<char>)) -> Seq<char> {
    "python_version "@ + p.0 + " '"@ + p.1 + "'"@
}

/// The marker expression of a specifier set: one comparison per specifier,
/// joined with `and`.
pub open spec fn spec_python_marker(s: Seq<char>) -> Seq<char> {
    text::spec_join_str(
        pep440::pep440_specs_parts(s).map_values(|p: (Seq<char>, Seq<char>)| spec_marker_part(p)),
        " and "@,
    )
}

impl PoetryPep440 {
    /// The constraint as an environment-marker expression over
    /// `python_version`; the constraint must be a valid specifier set.
    pub fn to_python_marker(&self) -> (r: String)
        requires
            pep440::pep440_specs_ok(self@),
        ensures
            r@ == spec_python_marker(self@),
    {
        let rendered_self = self.to_string();
        match pep440::specifier_parts(rendered_self.as_str()) {
            Some(parts) => {
                let n = parts.len();
                let ghost pv = parts.deep_view();
                let mut rendered: Vec<Vec<char>> = Vec::new();
                let mut i: usize = 0;
                proof {
                    assert(rendered.deep_view() =~= pv.take(0).map_values(
                        |p: (Seq<char>, Seq<char>)| spec_marker_part(p),
                    ));
                }
                while i < n
                    invariant
                        0 <= i <= n,
                        n == parts@.len(),
                        pv == parts.deep_view(),
                        pv.len() == n,
                        rendered.deep_view() == pv.take(i as int).map_values(
                            |p: (Seq<char>, Seq<char>)| spec_marker_part(p),
                        ),
                    decreases n - i,
                {
                    let mut out: Vec<char> = Vec::new();
                    text::append_str(&mut out, "python_version ");
                    text::append_str(&mut out, parts[i].0.as_str());
                    text::append_str(&mut out, " '");
                    text::append_str(&mut out, parts[i].1.as_str());
                    text::append_str(&mut out, "'");
                    proof {
                        assert(pv[i as int] == (parts@[i as int].0@, parts@[i as int].1@));
                        assert(out@ =~= spec_marker_part(pv[i as int]));
                        text::lemma_chars_deep_view(&out);
                    }
                    let ghost old_rendered = rendered.deep_view();
                    rendered.push(out);
                    i += 1;
                    proof {
                        assert(rendered.deep_view() =~= old_rendered.push(
                            spec_marker_part(pv[i - 1]),
                        ));
                        assert(rendered.deep_view() =~= pv.take(i as int).map_values(
                            |p: (Seq<char>, Seq<char>)| spec_marker_part(p),
                        ));
                    }
                }
                proof {
                    assert(pv.take(n as int) =~= pv);
                }
                let joined = text::join_chars_str(&rendered, " and ");
                text::string_from_chars(&joined)
            },
            None => {
                proof {
                    assert(false);
                }
                String::new()
            },
        }
    }

    /// The marker of a constraint checked valid first: `None` where the
    /// constraint is not a PEP 440 specifier set.
    pub fn try_python_marker(&self) -> (r: Option<String>)
        ensures
            pep440::pep440_specs_ok(self@) <==> r is Some,
            r matches Some(m) ==> m@ == spec_python_marker(self@),
    {
        let rendered_self = self.to_string();
        if pep440::specifiers_valid(rendered_self.as_str()) {
            Some(self.to_python_marker())
        } else {
            None
        }
    }
}

/// A finished translation is itself a valid specifier set.
pub proof fn lemma_translate_done_ok(s: Seq<char>, t: Seq<char>)
    requires
        spec_translate(s) == TranslateResult::Done(t),
    ensures
        pep440::pep440_specs_ok(t),
{
}

/// Law: a constraint already valid under PEP 440, with no surrounding
/// whitespace, translates to itself.
pub proof fn lemma_translate_round_trip(s: Seq<char>)
    requires
        pep440::pep440_specs_ok(s),
        spec_trim(s) == s,
    ensures
        spec_translate(s) == TranslateResult::Done(s),
{
}

/// Law: translation is idempotent; whatever it produces, it reproduces.
pub proof fn lemma_translate_idempotent(s: Seq<char>, t: Seq<char>)
    requires
        spec_translate(s) == TranslateResult::Done(t),
    ensures
        spec_translate(t) == TranslateResult::Done(t),
{
    let tr = spec_trim(s);
    if pep440::pep440_specs_ok(tr) {
        text::lemma_trim_idempotent(s);
    } else {
        let n = spec_replace_char(tr, ' ', ',');
        if n != tr && pep440::pep440_specs_ok(n) {
            text::lemma_trim_bounds(s);
            if n.len() > 0 {
                assert(!text::is_ws(tr[0]) && !text::is_ws(tr.last()));
                assert(n[0] == if tr[0] == ' ' {
                    ','
                } else {
                    tr[0]
                });
                assert(n.last() == if tr.last() == ' ' {
                    ','
                } else {
                    tr.last()
                });
            }
            text::lemma_trim_noop(n);
        } else {
            match translate_clauses(spec_split(tr, ','), tr) {
                Err(_) => {
                    assert(false);
                },
                Ok(parts) => {
                    let j = spec_trim(spec_join(parts, ','));
                    assert(t == j);
                    text::lemma_trim_idempotent(spec_join(parts, ','));
                },
            }
        }
    }
}

} // verus!
