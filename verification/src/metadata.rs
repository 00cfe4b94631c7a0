//! Dagentic metadata carried in HTML comments of issue and pull-request comments.
//!
//! Format: `<!-- dagentic:phase=planning tokens_in=1234 tokens_out=567 model=large-model-4-6 -->`
use crate::text::{
    all_digits, decimal_digits, is_ws, lemma_decimal_digits, lemma_find_char, lemma_parse_decimal,
    lemma_trim_unchanged, lemma_words_single, lemma_words_space, no_ws, ends_with_chars, lines, parse_u64, parse_u64_chars, split_lines, split_once, split_once_chars,
    split_words, starts_with_chars, string_from_chars, strip_prefix, strip_suffix, to_chars, trim,
    trim_chars, words, chars_eq,
};
use vstd::prelude::*;

verus! {

/// The metadata of one agent phase.
#[derive(Debug, Clone, PartialEq)]
pub struct PhaseMetadata {
    pub phase: String,
    pub tokens_in: Option<u64>,
    pub tokens_out: Option<u64>,
    pub model: Option<String>,
}

/// `PhaseMetadata` with its strings taken as character sequences.
pub struct PhaseMetadataView {
    pub phase: Seq<char>,
    pub tokens_in: Option<u64>,
    pub tokens_out: Option<u64>,
    pub model: Option<Seq<char>>,
}

pub open spec fn opt_chars(o: Option<String>) -> Option<Seq<char>> {
    match o {
        Some(s) => Some(s@),
        None => None,
    }
}

impl View for PhaseMetadata {
    type V = PhaseMetadataView;

    open spec fn view(&self) -> PhaseMetadataView {
        PhaseMetadataView {
            phase: self.phase@,
            tokens_in: self.tokens_in,
            tokens_out: self.tokens_out,
            model: opt_chars(self.model),
        }
    }
}

/// The values gathered from the `key=value` pairs of a metadata comment so far.
pub struct MetadataFields {
    pub phase: Option<Seq<char>>,
    pub tokens_in: Option<u64>,
    pub tokens_out: Option<u64>,
    pub model: Option<Seq<char>>,
}

/// One pair applied to what has been gathered: a later value of a key replaces an
/// earlier one, a token count that does not read as a `u64` becomes absent, and
/// pairs without `=` or with another key change nothing.
pub open spec fn apply_pair(acc: MetadataFields, pair: Seq<char>) -> MetadataFields {
    match split_once(pair, '=') {
        None => acc,
        Some((key, value)) => if key == "phase"@ {
            MetadataFields { phase: Some(value), ..acc }
        } else if key == "tokens_in"@ {
            MetadataFields { tokens_in: parse_u64(value), ..acc }
        } else if key == "tokens_out"@ {
            MetadataFields { tokens_out: parse_u64(value), ..acc }
        } else if key == "model"@ {
            MetadataFields { model: Some(value), ..acc }
        } else {
            acc
        },
    }
}

/// The pairs applied in order to an empty record.
pub open spec fn apply_pairs(pairs: Seq<Seq<char>>) -> MetadataFields
    decreases pairs.len(),
{
    if pairs.len() == 0 {
        MetadataFields { phase: None, tokens_in: None, tokens_out: None, model: None }
    } else {
        apply_pair(apply_pairs(pairs.drop_last()), pairs.last())
    }
}

/// The metadata that one (already trimmed) line holds: the line must be
/// `<!-- dagentic:` + inner + ` -->`, and the whitespace-separated pairs of the
/// trimmed inner part must give a phase.
pub open spec fn metadata_of_line(line: Seq<char>) -> Option<PhaseMetadataView> {
    match strip_prefix(line, "<!-- dagentic:"@) {
        None => None,
        Some(rest) => match strip_suffix(rest, " -->"@) {
            None => None,
            Some(inner) => {
                let f = apply_pairs(words(trim(inner)));
                match f.phase {
                    None => None,
                    Some(p) => Some(
                        PhaseMetadataView {
                            phase: p,
                            tokens_in: f.tokens_in,
                            tokens_out: f.tokens_out,
                            model: f.model,
                        },
                    ),
                }
            },
        },
    }
}

/// The metadata of each line, trimmed, that holds some, in order.
pub open spec fn metadata_of_lines(ls: Seq<Seq<char>>) -> Seq<PhaseMetadataView>
    decreases ls.len(),
{
    if ls.len() == 0 {
        seq![]
    } else {
        let prev = metadata_of_lines(ls.drop_last());
        match metadata_of_line(trim(ls.last())) {
            Some(m) => prev.push(m),
            None => prev,
        }
    }
}

/// All metadata entries of a comment body.
pub open spec fn metadata_of_comment(body: Seq<char>) -> Seq<PhaseMetadataView> {
    metadata_of_lines(lines(body))
}

pub open spec fn opt_vec_chars(o: Option<Vec<char>>) -> Option<Seq<char>> {
    match o {
        Some(v) => Some(v@),
        None => None,
    }
}

fn string_of_opt(o: Option<Vec<char>>) -> (r: Option<String>)
    ensures
        opt_chars(r) == opt_vec_chars(o),
{
    match o {
        Some(v) => Some(string_from_chars(&v)),
        None => None,
    }
}

/// The metadata that the characters of one line hold.
fn parse_metadata_chars(line: &[char]) -> (r: Option<PhaseMetadata>)
    ensures
        match r {
            Some(m) => metadata_of_line(line@) == Some(m@),
            None => metadata_of_line(line@) is None,
        },
{
    let prefix = to_chars("<!-- dagentic:");
    let suffix = to_chars(" -->");
    if !starts_with_chars(line, &prefix) {
        return None;
    }
    let rest = &line[prefix.len()..line.len()];
    assert(rest@ =~= line@.skip(prefix@.len() as int));
    if !ends_with_chars(rest, &suffix) {
        return None;
    }
    let inner = &rest[0..rest.len() - suffix.len()];
    assert(inner@ =~= rest@.take(rest@.len() - suffix@.len()));
    let trimmed = trim_chars(inner);
    let pairs = split_words(&trimmed);
    let ghost ws = words(trim(inner@));
    let k_phase = to_chars("phase");
    let k_tokens_in = to_chars("tokens_in");
    let k_tokens_out = to_chars("tokens_out");
    let k_model = to_chars("model");
    let mut phase: Option<Vec<char>> = None;
    let mut tokens_in: Option<u64> = None;
    let mut tokens_out: Option<u64> = None;
    let mut model: Option<Vec<char>> = None;
    let mut k: usize = 0;
    assert(ws.take(0) =~= Seq::<Seq<char>>::empty());
    while k < pairs.len()
        invariant
            k <= pairs.len(),
            pairs.len() == ws.len(),
            forall|j: int| 0 <= j < pairs.len() ==> (#[trigger] pairs@[j])@ == ws[j],
            k_phase@ == "phase"@,
            k_tokens_in@ == "tokens_in"@,
            k_tokens_out@ == "tokens_out"@,
            k_model@ == "model"@,
            apply_pairs(ws.take(k as int)) == (MetadataFields {
                phase: opt_vec_chars(phase),
                tokens_in: tokens_in,
                tokens_out: tokens_out,
                model: opt_vec_chars(model),
            }),
        decreases pairs.len() - k,
    {
        assert(ws.take(k + 1).drop_last() =~= ws.take(k as int));
        assert(ws.take(k + 1).last() == pairs@[k as int]@);
        match split_once_chars(&pairs[k], '=') {
            Some((key, value)) => {
                if chars_eq(&key, &k_phase) {
                    phase = Some(value);
                } else if chars_eq(&key, &k_tokens_in) {
                    tokens_in = parse_u64_chars(&value);
                } else if chars_eq(&key, &k_tokens_out) {
                    tokens_out = parse_u64_chars(&value);
                } else if chars_eq(&key, &k_model) {
                    model = Some(value);
                }
            },
            None => {},
        }
        k = k + 1;
    }
    assert(ws.take(pairs.len() as int) =~= ws);
    match phase {
        None => None,
        Some(p) => Some(
            PhaseMetadata {
                phase: string_from_chars(&p),
                tokens_in,
                tokens_out,
                model: string_of_opt(model),
            },
        ),
    }
}

/// The metadata that one metadata line holds, or `None` when it is no metadata
/// line or names no phase.
pub fn parse_metadata_line(line: &str) -> (r: Option<PhaseMetadata>)
    ensures
        match r {
            Some(m) => metadata_of_line(line@) == Some(m@),
            None => metadata_of_line(line@) is None,
        },
{
    let chars = to_chars(line);
    parse_metadata_chars(&chars)
}

/// Extract all dagentic metadata entries from a comment body: one for each line
/// that, trimmed, is a metadata line with a phase, in order.
pub fn parse_comment(body: &str) -> (r: Vec<PhaseMetadata>)
    ensures
        r.len() == metadata_of_comment(body@).len(),
        forall|i: int| 0 <= i < r.len() ==> (#[trigger] r@[i])@ == metadata_of_comment(body@)[i],
{
    let chars = to_chars(body);
    let ls = split_lines(&chars);
    let ghost lsv = lines(body@);
    let mut out: Vec<PhaseMetadata> = Vec::new();
    let mut k: usize = 0;
    assert(lsv.take(0) =~= Seq::<Seq<char>>::empty());
    while k < ls.len()
        invariant
            k <= ls.len(),
            ls.len() == lsv.len(),
            forall|j: int| 0 <= j < ls.len() ==> (#[trigger] ls@[j])@ == lsv[j],
            out.len() == metadata_of_lines(lsv.take(k as int)).len(),
            forall|j: int|
                0 <= j < out.len() ==> (#[trigger] out@[j])@ == metadata_of_lines(
                    lsv.take(k as int),
                )[j],
        decreases ls.len() - k,
    {
        assert(lsv.take(k + 1).drop_last() =~= lsv.take(k as int));
        assert(lsv.take(k + 1).last() == ls@[k as int]@);
        let line = trim_chars(&ls[k]);
        match parse_metadata_chars(&line) {
            Some(m) => {
                out.push(m);
            },
            None => {},
        }
        k = k + 1;
    }
    assert(lsv.take(ls.len() as int) =~= lsv);
    out
}

/// `key=value`.
pub open spec fn pair(key: Seq<char>, value: Seq<char>) -> Seq<char> {
    key + seq!['='] + value
}

/// The pairs of a metadata comment in the documented order: the phase, then
/// each field that is present.
pub open spec fn metadata_pairs(
    phase: Seq<char>,
    tokens_in: Option<u64>,
    tokens_out: Option<u64>,
    model: Option<Seq<char>>,
) -> Seq<Seq<char>> {
    seq![pair("phase"@, phase)] + match tokens_in {
        Some(n) => seq![pair("tokens_in"@, decimal_digits(n as nat))],
        None => seq![],
    } + match tokens_out {
        Some(n) => seq![pair("tokens_out"@, decimal_digits(n as nat))],
        None => seq![],
    } + match model {
        Some(m) => seq![pair("model"@, m)],
        None => seq![],
    }
}

/// Words joined by single spaces.
pub open spec fn join_spaces(ws: Seq<Seq<char>>) -> Seq<char>
    decreases ws.len(),
{
    if ws.len() == 0 {
        seq![]
    } else if ws.len() == 1 {
        ws[0]
    } else {
        join_spaces(ws.drop_last()) + seq![' '] + ws.last()
    }
}

/// A metadata line in the documented format.
pub open spec fn metadata_line(
    phase: Seq<char>,
    tokens_in: Option<u64>,
    tokens_out: Option<u64>,
    model: Option<Seq<char>>,
) -> Seq<char> {
    "<!-- dagentic:"@ + join_spaces(metadata_pairs(phase, tokens_in, tokens_out, model)) + " -->"@
}

proof fn lemma_join_spaces(ws: Seq<Seq<char>>)
    requires
        ws.len() > 0,
        forall|i: int| 0 <= i < ws.len() ==> (#[trigger] ws[i]).len() > 0 && no_ws(ws[i]),
    ensures
        words(join_spaces(ws)) == ws,
        join_spaces(ws).len() > 0,
        join_spaces(ws)[0] == ws[0][0],
        join_spaces(ws).last() == ws.last().last(),
    decreases ws.len(),
{
    if ws.len() == 1 {
        lemma_words_single(ws[0]);
        assert(seq![ws[0]] =~= ws);
    } else {
        let init = ws.drop_last();
        assert forall|i: int| 0 <= i < init.len() implies (#[trigger] init[i]).len() > 0 && no_ws(
            init[i],
        ) by {
            assert(init[i] == ws[i]);
        }
        lemma_join_spaces(init);
        assert(ws.last() == ws[ws.len() - 1]);
        lemma_words_single(ws.last());
        lemma_words_space(join_spaces(init), ws.last());
        assert(init + seq![ws.last()] =~= ws);
        assert(init[0] == ws[0]);
    }
}

proof fn lemma_split_pair(key: Seq<char>, value: Seq<char>)
    requires
        forall|i: int| 0 <= i < key.len() ==> key[i] != '=',
    ensures
        split_once(pair(key, value), '=') == Some((key, value)),
{
    let s = pair(key, value);
    assert forall|k: int| 0 <= k < key.len() implies s[k] != '=' by {
        assert(s[k] == key[k]);
    }
    lemma_find_char(s, '=', key.len() as int);
    assert(s.take(key.len() as int) =~= key);
    assert(s.skip(key.len() as int + 1) =~= value);
}

proof fn lemma_pair_word(key: Seq<char>, value: Seq<char>)
    requires
        no_ws(key),
        no_ws(value),
    ensures
        no_ws(pair(key, value)),
        pair(key, value).len() > 0,
{
    let s = pair(key, value);
    assert(!is_ws('='));
    assert forall|i: int| 0 <= i < s.len() implies !is_ws(#[trigger] s[i]) by {
        if i < key.len() {
            assert(s[i] == key[i]);
        } else if i > key.len() {
            assert(s[i] == value[i - key.len() - 1]);
        }
    }
}

proof fn lemma_digits_no_ws(n: nat)
    ensures
        no_ws(decimal_digits(n)),
{
    lemma_decimal_digits(n);
    let d = decimal_digits(n);
    assert forall|i: int| 0 <= i < d.len() implies !is_ws(#[trigger] d[i]) by {
        assert(all_digits(d));
        assert(48 <= (d[i] as u32) <= 57);
    }
}

proof fn lemma_apply_push(ps: Seq<Seq<char>>, p: Seq<char>)
    ensures
        apply_pairs(ps.push(p)) == apply_pair(apply_pairs(ps), p),
{
    assert(ps.push(p).drop_last() =~= ps);
}

/// A line in the documented format gives back the fields it was written from:
/// `<!-- dagentic:phase=P tokens_in=N tokens_out=M model=X -->`, with the
/// optional fields left out when absent, names phase `P` and the fields present,
/// for any phase and model without whitespace.
pub proof fn lemma_metadata_line_roundtrip(
    phase: Seq<char>,
    tokens_in: Option<u64>,
    tokens_out: Option<u64>,
    model: Option<Seq<char>>,
)
    requires
        phase.len() > 0,
        no_ws(phase),
        model matches Some(m) ==> m.len() > 0 && no_ws(m),
    ensures
        metadata_of_line(metadata_line(phase, tokens_in, tokens_out, model)) == Some(
            PhaseMetadataView { phase, tokens_in, tokens_out, model },
        ),
{
    reveal_strlit("phase");
    reveal_strlit("tokens_in");
    reveal_strlit("tokens_out");
    reveal_strlit("model");
    reveal_strlit("<!-- dagentic:");
    reveal_strlit(" -->");
    let ws = metadata_pairs(phase, tokens_in, tokens_out, model);
    let inner = join_spaces(ws);
    let prefix = "<!-- dagentic:"@;
    let suffix = " -->"@;
    let line = metadata_line(phase, tokens_in, tokens_out, model);
    // the pairs are words
    lemma_pair_word("phase"@, phase);
    let p0 = pair("phase"@, phase);
    let s0 = seq![p0];
    let s1 = match tokens_in {
        Some(n) => {
            lemma_digits_no_ws(n as nat);
            lemma_pair_word("tokens_in"@, decimal_digits(n as nat));
            s0.push(pair("tokens_in"@, decimal_digits(n as nat)))
        },
        None => s0,
    };
    let s2 = match tokens_out {
        Some(n) => {
            lemma_digits_no_ws(n as nat);
            lemma_pair_word("tokens_out"@, decimal_digits(n as nat));
            s1.push(pair("tokens_out"@, decimal_digits(n as nat)))
        },
        None => s1,
    };
    let s3 = match model {
        Some(m) => {
            lemma_pair_word("model"@, m);
            s2.push(pair("model"@, m))
        },
        None => s2,
    };
    assert(ws =~= s3);
    assert forall|i: int| 0 <= i < ws.len() implies (#[trigger] ws[i]).len() > 0 && no_ws(ws[i]) by {
    }
    lemma_join_spaces(ws);
    // the line is the prefix, the pairs and the suffix
    assert(line.take(prefix.len() as int) =~= prefix);
    let rest = line.skip(prefix.len() as int);
    assert(rest =~= inner + suffix);
    assert(rest.skip(rest.len() - suffix.len()) =~= suffix);
    assert(rest.take(rest.len() - suffix.len()) =~= inner);
    assert(!is_ws(ws[0][0]));
    assert(!is_ws(ws.last().last()));
    lemma_trim_unchanged(inner);
    // each pair sets its field
    lemma_split_pair("phase"@, phase);
    let f0 = apply_pairs(s0);
    assert(s0 =~= Seq::<Seq<char>>::empty().push(p0));
    lemma_apply_push(Seq::<Seq<char>>::empty(), p0);
    assert(f0.phase == Some(phase) && f0.tokens_in is None && f0.tokens_out is None
        && f0.model is None);
    match tokens_in {
        Some(n) => {
            lemma_split_pair("tokens_in"@, decimal_digits(n as nat));
            lemma_parse_decimal(n);
            lemma_apply_push(s0, pair("tokens_in"@, decimal_digits(n as nat)));
            assert("tokens_in"@ != "phase"@);
        },
        None => {},
    }
    let f1 = apply_pairs(s1);
    assert(f1.phase == Some(phase) && f1.tokens_in == tokens_in && f1.tokens_out is None
        && f1.model is None);
    match tokens_out {
        Some(n) => {
            lemma_split_pair("tokens_out"@, decimal_digits(n as nat));
            lemma_parse_decimal(n);
            lemma_apply_push(s1, pair("tokens_out"@, decimal_digits(n as nat)));
            assert("tokens_out"@ != "phase"@);
            assert("tokens_out"@ != "tokens_in"@);
        },
        None => {},
    }
    let f2 = apply_pairs(s2);
    assert(f2.phase == Some(phase) && f2.tokens_in == tokens_in && f2.tokens_out == tokens_out
        && f2.model is None);
    match model {
        Some(m) => {
            lemma_split_pair("model"@, m);
            lemma_apply_push(s2, pair("model"@, m));
            assert("model"@[0] != "phase"@[0]);
            assert("model"@ != "tokens_in"@);
            assert("model"@ != "tokens_out"@);
        },
        None => {},
    }
}

} // verus!
