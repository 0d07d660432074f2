//! The class substitution engine. A pattern may reference a named class with
//! an ASCII bracket pair `<Name>`; substitution replaces every reference by
//! the class's own fully substituted pattern. Substitution happens in two
//! passes: a normalization pass turns every ASCII bracket pair that is a
//! class reference (that is, one whose `<` is not part of the regex engine's
//! own look-behind, named-group or back-reference syntax) into a private
//! marker pair, and a scan then expands every marker pair, recursing into
//! class values so classes may reference other classes. Reference nesting
//! deeper than the number of defined classes means some class is referenced
//! from its own expansion, which can never complete; it is reported as an
//! error.

use vstd::prelude::*;
use vstd::string::*;

use crate::engine::{is_word, is_word_str};
use crate::error::{Error, PErr, ParseError};
use crate::text::{chars_of, find_from, lemma_find_from_lb, sat_inc, string_from_chars};

verus! {

/// One class definition: its name, its unresolved pattern text, and the line
/// it was defined on.
#[derive(Debug, Clone, PartialEq)]
pub struct ClassDef {
    pub name: String,
    pub pattern: String,
    pub line: usize,
}

/// Specification-level model of a class definition.
pub struct ClassV {
    pub name: Seq<char>,
    pub pattern: Seq<char>,
    pub line: usize,
}

impl View for ClassDef {
    type V = ClassV;

    open spec fn view(&self) -> ClassV {
        ClassV { name: self.name@, pattern: self.pattern@, line: self.line }
    }
}

/// The view of a class list.
pub open spec fn classes_view(s: Seq<ClassDef>) -> Seq<ClassV> {
    s.map_values(|cd: ClassDef| cd@)
}

/// The lookup table described by a class list: later definitions win, though
/// the parser never produces two definitions of one name.
pub open spec fn classes_map(s: Seq<ClassV>) -> Map<Seq<char>, (Seq<char>, usize)>
    decreases s.len(),
{
    if s.len() == 0 {
        Map::<Seq<char>, (Seq<char>, usize)>::empty()
    } else {
        classes_map(s.drop_last()).insert(s.last().name, (s.last().pattern, s.last().line))
    }
}

/// Looks a class up by name, returning the latest definition of that name.
pub fn lookup_class<'a>(classes: &'a Vec<ClassDef>, name: &String) -> (r: Option<&'a ClassDef>)
    ensures
        match r {
            Some(cd) => classes_map(classes_view(classes@)).contains_key(name@) && classes_map(
                classes_view(classes@),
            )[name@] == (cd.pattern@, cd.line),
            None => !classes_map(classes_view(classes@)).contains_key(name@),
        },
{
    let n = classes.len();
    proof {
        assert(classes_view(classes@).take(n as int) =~= classes_view(classes@));
    }
    let mut j: usize = n;
    while j > 0
        invariant
            0 <= j <= n,
            n == classes@.len(),
            classes_map(classes_view(classes@)).contains_key(name@) == classes_map(
                classes_view(classes@).take(j as int),
            ).contains_key(name@),
            classes_map(classes_view(classes@)).contains_key(name@) ==> classes_map(
                classes_view(classes@),
            )[name@] == classes_map(classes_view(classes@).take(j as int))[name@],
        decreases j,
    {
        proof {
            assert(classes_view(classes@).take(j as int).drop_last() =~= classes_view(
                classes@,
            ).take(j - 1));
            assert(classes_view(classes@).take(j as int).last() == classes@[j - 1]@);
        }
        if classes[j - 1].name.eq(name) {
            return Some(&classes[j - 1]);
        }
        j = j - 1;
    }
    proof {
        assert(classes_view(classes@).take(0) =~= Seq::<ClassV>::empty());
    }
    None
}

/// The private marker that opens a class reference after normalization.
pub open spec fn ref_open() -> char {
    '\u{27e8}'
}

/// The private marker that closes a class reference after normalization.
pub open spec fn ref_close() -> char {
    '\u{27e9}'
}

/// Whether the character at index `i` stands directly after one of the regex
/// engine's bracket introducers: a look-behind or named-group opener `(?`, a
/// named-group opener `(?P`, or a back-reference `\k`.
pub open spec fn introducer(p: Seq<char>, i: int) -> bool {
    ||| (i >= 2 && p[i - 2] == '(' && p[i - 1] == '?')
    ||| (i >= 3 && p[i - 3] == '(' && p[i - 2] == '?' && p[i - 1] == 'P')
    ||| (i >= 2 && p[i - 2] == '\\' && p[i - 1] == 'k')
}

/// The normalization pass from index `i` on: every ASCII bracket pair whose
/// `<` does not follow an introducer becomes a marker pair; everything else
/// is kept. Pairs are found left to right, each reaching to the first `>`
/// after its `<`.
pub open spec fn swap_from(p: Seq<char>, i: int) -> Seq<char>
    decreases p.len() - i,
    when i >= 0
{
    if i >= p.len() {
        Seq::<char>::empty()
    } else if p[i] == '<' && !introducer(p, i) && find_from(p, i + 1, '>') < p.len() {
        proof {
            lemma_find_from_lb(p, i + 1, '>');
        }
        let j = find_from(p, i + 1, '>');
        seq![ref_open()] + p.subrange(i + 1, j) + seq![ref_close()] + swap_from(p, j + 1)
    } else {
        seq![p[i]] + swap_from(p, i + 1)
    }
}

/// The normalized form of a whole pattern.
pub open spec fn swap_spec(p: Seq<char>) -> Seq<char> {
    swap_from(p, 0)
}

/// Whether the character at exec index `i` of `v` follows an introducer.
fn is_introducer(v: &Vec<char>, i: usize) -> (r: bool)
    requires
        i <= v@.len(),
    ensures
        r == introducer(v@, i as int),
{
    (i >= 2 && v[i - 2] == '(' && v[i - 1] == '?') || (i >= 3 && v[i - 3] == '(' && v[i - 2] == '?'
        && v[i - 1] == 'P') || (i >= 2 && v[i - 2] == '\\' && v[i - 1] == 'k')
}

/// Replaces ASCII `<` and `>` around each class reference with the private
/// marker pair, leaving the regex engine's own look-behind, named-group and
/// back-reference brackets untouched.
fn swap_chars(v: &Vec<char>) -> (r: Vec<char>)
    ensures
        r@ == swap_spec(v@),
{
    let n = v.len();
    let mut out: Vec<char> = Vec::new();
    let mut i: usize = 0;
    while i < n
        invariant
            0 <= i <= n,
            n == v@.len(),
            out@ + swap_from(v@, i as int) =~= swap_spec(v@),
        decreases n - i,
    {
        let ghost pre = out@;
        let c = v[i];
        let mut matched = false;
        if c == '<' && !is_introducer(v, i) {
            let j = crate::text::find_char(v, i + 1, '>');
            if j < n {
                out.push('\u{27e8}');
                let mut k: usize = i + 1;
                while k < j
                    invariant
                        i + 1 <= k <= j <= n,
                        n == v@.len(),
                        out@ =~= pre + seq![ref_open()] + v@.subrange(i + 1, k as int),
                    decreases j - k,
                {
                    out.push(v[k]);
                    k = k + 1;
                }
                out.push('\u{27e9}');
                proof {
                    assert(out@ =~= pre + (seq![ref_open()] + v@.subrange(i + 1, j as int) + seq![
                        ref_close(),
                    ]));
                    assert(pre + (seq![ref_open()] + v@.subrange(i + 1, j as int) + seq![
                        ref_close(),
                    ]) + swap_from(v@, j + 1) =~= pre + swap_from(v@, i as int));
                }
                i = j + 1;
                matched = true;
            }
        }
        if !matched {
            out.push(c);
            proof {
                assert(pre + seq![v@[i as int]] + swap_from(v@, i + 1) =~= pre + swap_from(
                    v@,
                    i as int,
                ));
            }
            i = i + 1;
        }
    }
    proof {
        assert(out@ + swap_from(v@, n as int) =~= out@);
    }
    out
}

/// Replaces ASCII `<` and `>` around each class reference with the private
/// marker pair, leaving the regex engine's own look-behind, named-group and
/// back-reference brackets untouched.
pub fn replace_angle_brackets(pattern: &str) -> (r: String)
    ensures
        r@ == swap_spec(pattern@),
{
    let cs = chars_of(pattern);
    let sw = swap_chars(&cs);
    string_from_chars(&sw)
}

/// The view of an optional class name under construction.
pub open spec fn name_view(o: Option<Vec<char>>) -> Option<Seq<char>> {
    match o {
        Option::Some(v) => Option::Some(v@),
        Option::None => Option::None,
    }
}

/// The substitution scan over a normalized pattern `q`, from index `i`, with
/// `out` already emitted and `name` the reference name being read. On a
/// closed reference the class value is normalized and expanded with one less
/// unit of `fuel`, so expansion nesting deeper than the initial fuel is
/// reported as a recursive class reference.
pub open spec fn subst_scan(
    q: Seq<char>,
    i: int,
    classes: Seq<ClassV>,
    out: Seq<char>,
    name: Option<Seq<char>>,
    fuel: nat,
) -> Result<Seq<char>, PErr>
    decreases fuel, q.len() - i,
    when i >= 0
{
    if i >= q.len() {
        if name is Some {
            Err(PErr::UnexpectedPatternEnd)
        } else {
            Ok(out)
        }
    } else {
        let c = q[i];
        if c == ref_open() {
            if name is Some {
                Err(PErr::UnexpectedClassNameOpen)
            } else {
                subst_scan(q, i + 1, classes, out, Some(Seq::<char>::empty()), fuel)
            }
        } else if c == ref_close() {
            match name {
                Option::None => Err(PErr::UnexpectedClassNameClose),
                Option::Some(nm) => {
                    if !is_word(nm) {
                        Err(PErr::InvalidClassName(nm))
                    } else if !classes_map(classes).contains_key(nm) {
                        Err(PErr::ClassNotFound(nm))
                    } else if fuel == 0 {
                        Err(PErr::RecursiveClassReference)
                    } else {
                        let value = classes_map(classes)[nm].0;
                        match subst_scan(
                            swap_spec(value),
                            0,
                            classes,
                            Seq::<char>::empty(),
                            None,
                            (fuel - 1) as nat,
                        ) {
                            Err(e) => Err(e),
                            Ok(inner) => subst_scan(q, i + 1, classes, out + inner, None, fuel),
                        }
                    }
                },
            }
        } else {
            match name {
                Option::Some(nm) => subst_scan(q, i + 1, classes, out, Some(nm.push(c)), fuel),
                Option::None => subst_scan(q, i + 1, classes, out.push(c), None, fuel),
            }
        }
    }
}

/// The result of substituting every class reference of `pattern`, with
/// expansion nesting bounded by `fuel`.
pub open spec fn subst_spec(pattern: Seq<char>, classes: Seq<ClassV>, fuel: nat) -> Result<
    Seq<char>,
    PErr,
> {
    subst_scan(swap_spec(pattern), 0, classes, Seq::<char>::empty(), None, fuel)
}

/// The expansion-nesting bound used for a class list: one more than the
/// number of definitions, which every acyclic reference chain stays within.
pub open spec fn fuel_for(classes: Seq<ClassV>) -> nat {
    sat_inc(classes.len() as usize) as nat
}

fn subst_scan_exec(
    q: &Vec<char>,
    i: usize,
    classes: &Vec<ClassDef>,
    out: Vec<char>,
    name: Option<Vec<char>>,
    fuel: usize,
) -> (r: Result<Vec<char>, ParseError>)
    requires
        i <= q@.len(),
    ensures
        match r {
            Ok(v) => subst_scan(
                q@,
                i as int,
                classes_view(classes@),
                out@,
                name_view(name),
                fuel as nat,
            ) == Ok::<Seq<char>, PErr>(v@),
            Err(e) => subst_scan(
                q@,
                i as int,
                classes_view(classes@),
                out@,
                name_view(name),
                fuel as nat,
            ) == Err::<Seq<char>, PErr>(e@),
        },
    decreases fuel, q@.len() - i,
{
    if i == q.len() {
        match name {
            Some(_) => Err(ParseError::UnexpectedPatternEnd),
            None => Ok(out),
        }
    } else {
        let c = q[i];
        if c == '\u{27e8}' {
            match name {
                Some(_) => Err(ParseError::UnexpectedClassNameOpen),
                None => {
                    let empty_name: Vec<char> = Vec::new();
                    proof {
                        assert(empty_name@ =~= Seq::<char>::empty());
                    }
                    subst_scan_exec(q, i + 1, classes, out, Some(empty_name), fuel)
                },
            }
        } else if c == '\u{27e9}' {
            match name {
                None => Err(ParseError::UnexpectedClassNameClose),
                Some(nm) => {
                    let nm_s = string_from_chars(&nm);
                    if !is_word_str(nm_s.as_str()) {
                        Err(ParseError::InvalidClassName(nm_s))
                    } else {
                        let found = lookup_class(classes, &nm_s);
                        match found {
                            None => Err(ParseError::ClassNotFound(nm_s)),
                            Some(cd) => {
                                if fuel == 0 {
                                    Err(ParseError::RecursiveClassReference)
                                } else {
                                    let value = chars_of(cd.pattern.as_str());
                                    let sw = swap_chars(&value);
                                    let fresh: Vec<char> = Vec::new();
                                    proof {
                                        assert(fresh@ =~= Seq::<char>::empty());
                                    }
                                    match subst_scan_exec(&sw, 0, classes, fresh, None, fuel - 1) {
                                        Err(e) => Err(e),
                                        Ok(inner) => {
                                            let ghost out_pre = out@;
                                            let mut out2 = out;
                                            let mut inner2 = inner;
                                            out2.append(&mut inner2);
                                            proof {
                                                assert(out2@ =~= out_pre + inner@);
                                            }
                                            subst_scan_exec(q, i + 1, classes, out2, None, fuel)
                                        },
                                    }
                                }
                            },
                        }
                    }
                },
            }
        } else {
            match name {
                Some(nm) => {
                    let ghost nm_pre = nm@;
                    let mut nm2 = nm;
                    nm2.push(c);
                    proof {
                        assert(nm2@ =~= nm_pre.push(c));
                    }
                    subst_scan_exec(q, i + 1, classes, out, Some(nm2), fuel)
                },
                None => {
                    let ghost out_pre = out@;
                    let mut out2 = out;
                    out2.push(c);
                    proof {
                        assert(out2@ =~= out_pre.push(c));
                    }
                    subst_scan_exec(q, i + 1, classes, out2, None, fuel)
                },
            }
        }
    }
}

/// Substitutes every class reference of `pattern` using `classes`, reporting
/// any failure at line `line`. References may nest: a class value may
/// reference further classes, to a depth of at most one more than the number
/// of definitions (beyond that some class is referenced from its own
/// expansion, and the recursive reference is reported).
pub fn replace_classes(pattern: &str, classes: &Vec<ClassDef>, line: usize) -> (r: Result<
    String,
    Error,
>)
    ensures
        r matches Ok(s) ==> subst_spec(pattern@, classes_view(classes@), fuel_for(classes_view(classes@))) == Ok::<
            Seq<char>,
            PErr,
        >(s@),
        r matches Err(e) ==> (subst_spec(pattern@, classes_view(classes@), fuel_for(classes_view(classes@))) matches Err(pe)
            && e@ == crate::error::ErrV::Parse(pe, line)),
{
    let cs = chars_of(pattern);
    let sw = swap_chars(&cs);
    let fresh: Vec<char> = Vec::new();
    proof {
        assert(fresh@ =~= Seq::<char>::empty());
    }
    let fuel: usize = if classes.len() < usize::MAX {
        classes.len() + 1
    } else {
        classes.len()
    };
    match subst_scan_exec(&sw, 0, classes, fresh, None, fuel) {
        Ok(v) => Ok(string_from_chars(&v)),
        Err(pe) => Err(Error::Parse(pe, line)),
    }
}

/// Substitutes every class reference of `pattern`, with no statement line to
/// blame failures on.
pub fn substitute_classes(pattern: &str, classes: &Vec<ClassDef>) -> (r: Result<String, Error>)
    ensures
        r matches Ok(s) ==> subst_spec(pattern@, classes_view(classes@), fuel_for(classes_view(classes@))) == Ok::<
            Seq<char>,
            PErr,
        >(s@),
        r matches Err(e) ==> (subst_spec(pattern@, classes_view(classes@), fuel_for(classes_view(classes@))) matches Err(pe)
            && e@ == crate::error::ErrV::Parse(pe, 0)),
{
    replace_classes(pattern, classes, 0)
}


/// The class names referenced by the scan of `q` from `i` onward: every
/// marker-delimited name it can reach, whether or not the scan completes.
pub open spec fn refs_from(q: Seq<char>, i: int, name: Option<Seq<char>>) -> Set<Seq<char>>
    decreases q.len() - i,
    when i >= 0
{
    if i >= q.len() {
        Set::<Seq<char>>::empty()
    } else if q[i] == ref_open() {
        if name is Some {
            Set::<Seq<char>>::empty()
        } else {
            refs_from(q, i + 1, Some(Seq::<char>::empty()))
        }
    } else if q[i] == ref_close() {
        match name {
            Option::None => Set::<Seq<char>>::empty(),
            Option::Some(nm) => refs_from(q, i + 1, None).insert(nm),
        }
    } else {
        match name {
            Option::Some(nm) => refs_from(q, i + 1, Some(nm.push(q[i]))),
            Option::None => refs_from(q, i + 1, None),
        }
    }
}

/// A class table whose reference graph is acyclic, witnessed by a rank: every
/// defined class that a class's own value references has a strictly smaller
/// rank.
pub open spec fn ranked(classes: Seq<ClassV>, rank: Map<Seq<char>, nat>) -> bool {
    forall|nm: Seq<char>|
        #[trigger] classes_map(classes).contains_key(nm) ==> rank.contains_key(nm) && (forall|
            m: Seq<char>,
        |
            refs_from(swap_spec(classes_map(classes)[nm].0), 0, None).contains(m) && #[trigger]
            classes_map(classes).contains_key(m) ==> rank.contains_key(m) && rank[m] < rank[nm])
}

proof fn lemma_scan_below_rank(
    q: Seq<char>,
    i: int,
    classes: Seq<ClassV>,
    out: Seq<char>,
    name: Option<Seq<char>>,
    fuel: nat,
    rank: Map<Seq<char>, nat>,
    bound: nat,
)
    requires
        ranked(classes, rank),
        0 <= i <= q.len(),
        bound <= fuel,
        forall|m: Seq<char>|
            refs_from(q, i, name).contains(m) && #[trigger] classes_map(classes).contains_key(m)
                ==> rank.contains_key(m) && rank[m] < bound,
    ensures
        !(subst_scan(q, i, classes, out, name, fuel) matches Err(
        PErr::RecursiveClassReference)),
    decreases fuel, q.len() - i,
{
    if i == q.len() {
    } else {
        let c = q[i];
        if c == ref_open() {
            if name is None {
                lemma_scan_below_rank(
                    q,
                    i + 1,
                    classes,
                    out,
                    Some(Seq::<char>::empty()),
                    fuel,
                    rank,
                    bound,
                );
            }
        } else if c == ref_close() {
            match name {
                Option::None => {},
                Option::Some(nm) => {
                    if is_word(nm) && classes_map(classes).contains_key(nm) {
                        assert(refs_from(q, i, name).contains(nm));
                        assert(rank[nm] < bound);
                        let value = classes_map(classes)[nm].0;
                        lemma_scan_below_rank(
                            swap_spec(value),
                            0,
                            classes,
                            Seq::<char>::empty(),
                            None,
                            (fuel - 1) as nat,
                            rank,
                            rank[nm],
                        );
                        match subst_scan(
                            swap_spec(value),
                            0,
                            classes,
                            Seq::<char>::empty(),
                            None,
                            (fuel - 1) as nat,
                        ) {
                            Err(_) => {},
                            Ok(inner) => {
                                assert(forall|m: Seq<char>|
                                    refs_from(q, i + 1, None).contains(m) ==> refs_from(
                                        q,
                                        i,
                                        name,
                                    ).contains(m));
                                lemma_scan_below_rank(
                                    q,
                                    i + 1,
                                    classes,
                                    out + inner,
                                    None,
                                    fuel,
                                    rank,
                                    bound,
                                );
                            },
                        }
                    }
                },
            }
        } else {
            match name {
                Option::Some(nm) => {
                    lemma_scan_below_rank(
                        q,
                        i + 1,
                        classes,
                        out,
                        Some(nm.push(c)),
                        fuel,
                        rank,
                        bound,
                    );
                },
                Option::None => {
                    lemma_scan_below_rank(q, i + 1, classes, out.push(c), None, fuel, rank, bound);
                },
            }
        }
    }
}

/// Substitution of any pattern over an acyclic class table — one whose
/// reference graph admits a rank below the expansion bound — never reports a
/// recursive class reference: with the bound in place of unbounded recursion,
/// every expansion of such a table completes, to any nesting depth, and every
/// failure it can report is a genuine fault of the pattern or the table.
pub proof fn lemma_acyclic_table_always_expands(
    p: Seq<char>,
    classes: Seq<ClassV>,
    rank: Map<Seq<char>, nat>,
)
    requires
        ranked(classes, rank),
        forall|nm: Seq<char>| #[trigger] classes_map(classes).contains_key(nm) ==> rank[nm] + 1
            < fuel_for(classes),
    ensures
        !(subst_spec(p, classes, fuel_for(classes)) matches Err(PErr::RecursiveClassReference)),
{
    lemma_scan_below_rank(
        swap_spec(p),
        0,
        classes,
        Seq::<char>::empty(),
        None,
        fuel_for(classes),
        rank,
        (fuel_for(classes) - 1) as nat,
    );
}

proof fn lemma_swap_protected(p: Seq<char>, i: int)
    requires
        0 <= i <= p.len(),
        forall|k: int| 0 <= k < p.len() && p[k] == '<' ==> introducer(p, k),
    ensures
        swap_from(p, i) == p.skip(i),
    decreases p.len() - i,
{
    if i == p.len() {
        assert(p.skip(i) =~= Seq::<char>::empty());
    } else {
        lemma_swap_protected(p, i + 1);
        assert(seq![p[i]] + p.skip(i + 1) =~= p.skip(i));
    }
}

proof fn lemma_scan_no_markers(
    p: Seq<char>,
    i: int,
    classes: Seq<ClassV>,
    out: Seq<char>,
    fuel: nat,
)
    requires
        0 <= i <= p.len(),
        forall|k: int| 0 <= k < p.len() ==> p[k] != ref_open() && p[k] != ref_close(),
    ensures
        subst_scan(p, i, classes, out, None, fuel) == Ok::<Seq<char>, PErr>(out + p.skip(i)),
    decreases p.len() - i,
{
    if i == p.len() {
        assert(out + p.skip(i) =~= out);
    } else {
        lemma_scan_no_markers(p, i + 1, classes, out.push(p[i]), fuel);
        assert(out.push(p[i]) + p.skip(i + 1) =~= out + p.skip(i));
    }
}

/// Text in which every ASCII `<` belongs to the regex engine's own
/// look-behind, named-group or back-reference syntax, and which holds no
/// private marker, passes through substitution unchanged: none of its
/// brackets is treated as a class reference. In particular substitution is
/// idempotent on such text, which includes every fully substituted pattern.
pub proof fn lemma_substitution_fixes_protected_text(
    p: Seq<char>,
    classes: Seq<ClassV>,
    fuel: nat,
)
    requires
        forall|k: int| 0 <= k < p.len() && p[k] == '<' ==> introducer(p, k),
        forall|k: int| 0 <= k < p.len() ==> p[k] != ref_open() && p[k] != ref_close(),
    ensures
        subst_spec(p, classes, fuel) == Ok::<Seq<char>, PErr>(p),
{
    lemma_swap_protected(p, 0);
    assert(p.skip(0) =~= p);
    lemma_scan_no_markers(p, 0, classes, Seq::<char>::empty(), fuel);
    assert(Seq::<char>::empty() + p =~= p);
}

/// Flat text — no ASCII bracket and no marker at all — is a fixed point of
/// substitution, whatever the class table and the nesting bound.
pub proof fn lemma_substitution_idempotent_on_flat(p: Seq<char>, classes: Seq<ClassV>, fuel: nat)
    requires
        forall|k: int|
            0 <= k < p.len() ==> p[k] != '<' && p[k] != ref_open() && p[k] != ref_close(),
    ensures
        subst_spec(p, classes, fuel) == Ok::<Seq<char>, PErr>(p),
{
    lemma_substitution_fixes_protected_text(p, classes, fuel);
}

} // verus!
