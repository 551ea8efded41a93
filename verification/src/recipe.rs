//! Which tensors are quantized, and how: tensor families, recipe strings and per-layer overrides.
use vstd::prelude::*;

use crate::seqs::{extend_range, prefix};
use crate::text::{
    after_last, append, begins_with, chars_of, contains, contains_text, debug_quoted, find_char,
    first_of, has_prefix, is_digit, last_of, leading_digits, lemma_last_of, number_in, occurs_at,
    parse_number, pieces, push_chars, quoted, rfind_char, same_text, split, string_of, strip_back,
    strip_front, tail, trim, trimmed, views, without_prefix, without_suffix,
};

verus! {

/// Weight format of one tensor.
#[derive(Clone, Copy, Debug, PartialEq, Eq, Structural)]
pub enum Fmt {
    Bf16,
    Fp8,
    Nvfp4,
}

/// Family of a tensor.
#[derive(Clone, Copy, Debug, PartialEq, Eq, Structural)]
pub enum Group {
    Mlp,
    Attn,
    Gdn,
    LmHead,
    Embed,
    Mtp,
    Router,
    Expert,
    Hc,
    Ple,
    PleTable,
    Other,
}

/// One per-layer override: layers `lo..=hi` at `fmt`.
#[derive(Clone, Copy, Debug, PartialEq, Eq, Structural)]
pub struct LayerRule {
    pub lo: usize,
    pub hi: usize,
    pub fmt: Fmt,
}

/// What is wrong with a recipe.
#[derive(Clone, Copy, Debug, PartialEq, Eq, Structural)]
pub enum RecipeFault {
    UnknownLayerFormat,
    BadLayerRange,
    BadLayerSelector,
    UnknownFormat,
    UnknownGroup,
}

/// A recipe that cannot be used, with the offending text.
pub struct RecipeError {
    pub fault: RecipeFault,
    pub text: String,
}

impl RecipeError {
    /// The fault and its text.
    pub open spec fn view(&self) -> (RecipeFault, Seq<char>) {
        (self.fault, self.text@)
    }

    /// The message shown to the user, with the text in quotes.
    pub fn message(&self) -> (m: String)
        ensures
            m@ == (match self.fault {
                RecipeFault::UnknownLayerFormat => "unknown layer format "@,
                RecipeFault::BadLayerRange => "bad layer range "@,
                RecipeFault::BadLayerSelector => "bad layer selector "@,
                RecipeFault::UnknownFormat => "unknown format "@,
                RecipeFault::UnknownGroup => "unknown group "@,
            }) + debug_quoted(self.text@),
    {
        let head: &str = match self.fault {
            RecipeFault::UnknownLayerFormat => "unknown layer format ",
            RecipeFault::BadLayerRange => "bad layer range ",
            RecipeFault::BadLayerSelector => "bad layer selector ",
            RecipeFault::UnknownFormat => "unknown format ",
            RecipeFault::UnknownGroup => "unknown group ",
        };
        let mut m: String = head.to_owned();
        append(&mut m, quoted(self.text.as_str()).as_str());
        m
    }
}

// ---- families ----

/// The family of the tensor `name`: the first rule that fits.
pub open spec fn group_of_name(name: Seq<char>) -> Group {
    if contains_text(name, ".mlp.gate.weight"@) || contains_text(name, ".shared_expert_gate."@)
        || contains_text(name, ".router."@) {
        Group::Router
    } else if has_prefix(name, "mtp."@) || contains_text(name, ".eh_proj"@) {
        Group::Mtp
    } else if contains_text(name, "lm_head"@) {
        Group::LmHead
    } else if contains_text(name, "embed_tokens"@) {
        Group::Embed
    } else if contains_text(name, ".ngram_embedding."@) {
        Group::PleTable
    } else if contains_text(name, ".ple."@) {
        Group::Ple
    } else if contains_text(name, "hyper_connection"@) {
        Group::Hc
    } else if contains_text(name, ".mlp.experts."@) {
        Group::Expert
    } else if contains_text(name, ".mlp."@) {
        Group::Mlp
    } else if contains_text(name, ".self_attn."@) {
        Group::Attn
    } else if contains_text(name, ".linear_attn."@) && (contains_text(name, "in_proj"@)
        || contains_text(name, "out_proj"@)) {
        Group::Gdn
    } else {
        Group::Other
    }
}

/// The family of a tensor, by name.
///
/// Routing gates come before everything else, so that holding the router family in high precision
/// also holds the draft head's routers; the hyper-connection and expert tensors come before the plain
/// MLP, whose name they contain.
pub fn group_of(name: &str) -> (g: Group)
    ensures
        g == group_of_name(name@),
{
    let c: Vec<char> = chars_of(name);
    let n: &[char] = c.as_slice();
    if contains(n, ".mlp.gate.weight") || contains(n, ".shared_expert_gate.") {
        return Group::Router;
    }
    if contains(n, ".router.") {
        return Group::Router;
    }
    if begins_with(n, "mtp.") {
        return Group::Mtp;
    }
    if contains(n, ".eh_proj") {
        return Group::Mtp;
    }
    if contains(n, "lm_head") {
        return Group::LmHead;
    }
    if contains(n, "embed_tokens") {
        return Group::Embed;
    }
    if contains(n, ".ngram_embedding.") {
        return Group::PleTable;
    }
    if contains(n, ".ple.") {
        return Group::Ple;
    }
    if contains(n, "hyper_connection") {
        return Group::Hc;
    }
    if contains(n, ".mlp.experts.") {
        return Group::Expert;
    }
    if contains(n, ".mlp.") {
        return Group::Mlp;
    }
    if contains(n, ".self_attn.") {
        return Group::Attn;
    }
    if contains(n, ".linear_attn.") {
        if contains(n, "in_proj") || contains(n, "out_proj") {
            return Group::Gdn;
        }
    }
    Group::Other
}

/// The word a recipe uses for a family.
pub open spec fn group_word(g: Group) -> Seq<char> {
    match g {
        Group::Mlp => "mlp"@,
        Group::Attn => "attn"@,
        Group::Gdn => "gdn"@,
        Group::LmHead => "lmhead"@,
        Group::Embed => "embed"@,
        Group::Mtp => "mtp"@,
        Group::Router => "router"@,
        Group::Expert => "expert"@,
        Group::Other => "other"@,
        Group::Hc => "hc"@,
        Group::Ple => "ple"@,
        Group::PleTable => "pletable"@,
    }
}

/// The word a recipe uses for a family.
pub fn group_name(g: Group) -> (s: &'static str)
    ensures
        s@ == group_word(g),
{
    match g {
        Group::Mlp => "mlp",
        Group::Attn => "attn",
        Group::Gdn => "gdn",
        Group::LmHead => "lmhead",
        Group::Embed => "embed",
        Group::Mtp => "mtp",
        Group::Router => "router",
        Group::Expert => "expert",
        Group::Other => "other",
        Group::Hc => "hc",
        Group::Ple => "ple",
        Group::PleTable => "pletable",
    }
}

/// The word for a format.
pub open spec fn fmt_word(f: Fmt) -> Seq<char> {
    match f {
        Fmt::Bf16 => "bf16"@,
        Fmt::Fp8 => "fp8"@,
        Fmt::Nvfp4 => "nvfp4"@,
    }
}

/// The word for a format.
pub fn fmt_name(f: Fmt) -> (s: &'static str)
    ensures
        s@ == fmt_word(f),
{
    match f {
        Fmt::Bf16 => "bf16",
        Fmt::Fp8 => "fp8",
        Fmt::Nvfp4 => "nvfp4",
    }
}

/// The format that a word names.
pub open spec fn fmt_of_word(w: Seq<char>) -> Option<Fmt> {
    if w == "fp8"@ {
        Some(Fmt::Fp8)
    } else if w == "nvfp4"@ {
        Some(Fmt::Nvfp4)
    } else if w == "bf16"@ {
        Some(Fmt::Bf16)
    } else {
        None
    }
}

fn parse_fmt(w: &[char]) -> (r: Option<Fmt>)
    ensures
        r == fmt_of_word(w@),
{
    if same_text(w, "fp8") {
        Some(Fmt::Fp8)
    } else if same_text(w, "nvfp4") {
        Some(Fmt::Nvfp4)
    } else if same_text(w, "bf16") {
        Some(Fmt::Bf16)
    } else {
        None
    }
}

// ---- tokens ----

/// The comma-separated words of a recipe, trimmed, without the empty ones.
pub open spec fn words(spec: Seq<char>) -> Seq<Seq<char>> {
    trimmed_words(pieces(spec, |c: char| c == ',' || c == ','))
}

/// The trimmed pieces that are not empty.
pub open spec fn trimmed_words(p: Seq<Seq<char>>) -> Seq<Seq<char>>
    decreases p.len(),
{
    if p.len() == 0 {
        Seq::empty()
    } else {
        let w = trimmed(p.last());
        if w.len() == 0 {
            trimmed_words(p.drop_last())
        } else {
            trimmed_words(p.drop_last()).push(w)
        }
    }
}

/// A per-layer override, possibly negated.
pub open spec fn is_layer_word(w: Seq<char>) -> bool {
    has_prefix(without_prefix(w, "-"@), "layers:"@)
}

/// What follows `layers:`.
pub open spec fn layer_body(w: Seq<char>) -> Seq<char> {
    without_prefix(w, "-"@).skip(7)
}

/// A list of layers whose format has not come yet.
pub open spec fn opens_list(w: Seq<char>) -> bool {
    is_layer_word(w) && last_of(layer_body(w), ':') == -1
}

/// A word that can continue a list of layers.
pub open spec fn is_list_item(w: Seq<char>) -> bool {
    w.len() > 0 && is_digit(w[0])
}

/// How many words, from index `i` on, complete an open list: list items, the last of which carries
/// the format. Zero when the list is never completed.
pub open spec fn list_rest(ws: Seq<Seq<char>>, i: int) -> int
    decreases ws.len() - i,
{
    if i < 0 || i >= ws.len() || !is_list_item(ws[i]) {
        0
    } else if last_of(ws[i], ':') >= 0 {
        1
    } else if list_rest(ws, i + 1) == 0 {
        0
    } else {
        1 + list_rest(ws, i + 1)
    }
}

/// `ws[i..j]` joined by commas, after `head`.
pub open spec fn joined(head: Seq<char>, ws: Seq<Seq<char>>, i: int, j: int) -> Seq<char>
    decreases j - i,
{
    if i >= j {
        head
    } else {
        joined(head, ws, i, j - 1).push(',') + ws[j - 1]
    }
}

/// The tokens of a recipe from word `i` on: a list of layers written with commas is one token.
pub open spec fn tokens_from(ws: Seq<Seq<char>>, i: int) -> Seq<Seq<char>>
    decreases ws.len() - i,
{
    if i < 0 || i >= ws.len() {
        Seq::empty()
    } else if opens_list(ws[i]) && list_rest(ws, i + 1) > 0 {
        proof {
            lemma_list_rest(ws, i + 1);
        }
        seq![joined(ws[i], ws, i + 1, i + 1 + list_rest(ws, i + 1))] + tokens_from(
            ws,
            i + 1 + list_rest(ws, i + 1),
        )
    } else {
        seq![ws[i]] + tokens_from(ws, i + 1)
    }
}

/// The tokens of a recipe.
pub open spec fn recipe_tokens(spec: Seq<char>) -> Seq<Seq<char>> {
    tokens_from(words(spec), 0)
}

fn split_words(spec: &[char]) -> (r: Vec<Vec<char>>)
    ensures
        views(r@) == words(spec@),
{
    let p: Vec<Vec<char>> = split(spec, ',', ',');
    let mut r: Vec<Vec<char>> = Vec::new();
    let mut i: usize = 0;
    while i < p.len()
        invariant
            i <= p.len(),
            views(r@) == trimmed_words(views(p@).take(i as int)),
        decreases p.len() - i,
    {
        let w: Vec<char> = trim(p[i].as_slice());
        let ghost r0 = r@;
        proof {
            let v = views(p@);
            assert(v.take(i + 1).drop_last() =~= v.take(i as int));
            assert(v.take(i + 1).last() == p@[i as int]@);
        }
        if w.len() > 0 {
            r.push(w);
            proof {
                assert(views(r@) =~= views(r0).push(w@));
            }
        }
        i = i + 1;
    }
    proof {
        assert(views(p@).take(p@.len() as int) =~= views(p@));
    }
    r
}

fn layer_word(w: &[char]) -> (r: Option<Vec<char>>)
    ensures
        match r {
            Some(b) => is_layer_word(w@) && b@ == layer_body(w@),
            None => !is_layer_word(w@),
        },
{
    let t: Vec<char> = strip_front(w, "-");
    if begins_with(t.as_slice(), "layers:") {
        proof {
            reveal_strlit("layers:");
        }
        Some(tail(t.as_slice(), 7))
    } else {
        None
    }
}

/// An open list is completed within the words that follow it.
pub proof fn lemma_list_rest(ws: Seq<Seq<char>>, i: int)
    requires
        0 <= i <= ws.len(),
    ensures
        0 <= list_rest(ws, i) <= ws.len() - i,
    decreases ws.len() - i,
{
    if i < ws.len() {
        lemma_list_rest(ws, i + 1);
    }
}

fn count_list_rest(ws: &Vec<Vec<char>>, from: usize) -> (n: usize)
    requires
        from <= ws.len(),
    ensures
        n == list_rest(views(ws@), from as int),
        from + n <= ws.len(),
    decreases ws.len() - from,
{
    proof {
        lemma_list_rest(views(ws@), from as int);
    }
    if from >= ws.len() {
        return 0;
    }
    let w: &Vec<char> = &ws[from];
    proof {
        assert(views(ws@)[from as int] == w@);
    }
    if w.len() == 0 || !crate::text::digit(w[0]) {
        return 0;
    }
    match rfind_char(w.as_slice(), ':') {
        Some(_) => 1,
        None => {
            let k: usize = count_list_rest(ws, from + 1);
            if k == 0 {
                0
            } else {
                1 + k
            }
        },
    }
}

fn tokenize(spec: &[char]) -> (r: Vec<Vec<char>>)
    ensures
        views(r@) == recipe_tokens(spec@),
{
    let ws: Vec<Vec<char>> = split_words(spec);
    let ghost v = views(ws@);
    let mut r: Vec<Vec<char>> = Vec::new();
    let mut i: usize = 0;
    proof {
        assert(views(r@) + tokens_from(v, 0) =~= tokens_from(v, 0));
    }
    while i < ws.len()
        invariant
            i <= ws.len(),
            v == views(ws@),
            views(r@) + tokens_from(v, i as int) == tokens_from(v, 0),
        decreases ws.len() - i,
    {
        let ghost r0 = r@;
        let open: bool = match layer_word(ws[i].as_slice()) {
            Some(b) => match rfind_char(b.as_slice(), ':') {
                Some(_) => false,
                None => true,
            },
            None => false,
        };
        proof {
            assert(v[i as int] == ws@[i as int]@);
            if is_layer_word(v[i as int]) {
                lemma_last_of(layer_body(v[i as int]), ':');
            }
        }
        let more: usize = if open {
            count_list_rest(&ws, i + 1)
        } else {
            0
        };
        let mut t: Vec<char> = prefix(ws[i].as_slice(), ws[i].len());
        proof {
            assert(ws@[i as int]@.take(ws@[i as int]@.len() as int) =~= ws@[i as int]@);
        }
        let mut k: usize = 0;
        while k < more
            invariant
                k <= more,
                i + 1 + more <= ws.len(),
                v == views(ws@),
                t@ == joined(v[i as int], v, i + 1, i + 1 + k),
            decreases more - k,
        {
            t.push(',');
            push_chars(&mut t, ws[i + 1 + k].as_slice());
            proof {
                assert(v[i + 1 + k] == ws@[i + 1 + k]@);
            }
            k = k + 1;
        }
        let ghost tv = t@;
        r.push(t);
        proof {
            assert(views(r@) =~= views(r0).push(tv));
            assert(views(r@) + tokens_from(v, i + 1 + more) =~= views(r0) + (seq![tv]
                + tokens_from(v, i + 1 + more)));
        }
        i = i + 1 + more;
    }
    proof {
        assert(tokens_from(v, i as int) =~= Seq::<Seq<char>>::empty());
        assert(views(r@) + Seq::<Seq<char>>::empty() =~= views(r@));
    }
    r
}

// ---- per-layer overrides ----

/// A usize read from text.
pub open spec fn layer_number(s: Seq<char>) -> Option<nat> {
    number_in(s, usize::MAX as nat)
}

/// The override that one selector asks for.
pub open spec fn rule_of_part(part: Seq<char>, fmt: Fmt) -> Result<
    LayerRule,
    (RecipeFault, Seq<char>),
> {
    let dash = first_of(part, '-');
    if dash < part.len() {
        match (layer_number(part.take(dash)), layer_number(part.skip(dash + 1))) {
            (Some(a), Some(b)) => if a <= b {
                Ok(LayerRule { lo: a as usize, hi: b as usize, fmt })
            } else {
                Err((RecipeFault::BadLayerRange, part))
            },
            _ => Err((RecipeFault::BadLayerRange, part)),
        }
    } else {
        match layer_number(part) {
            Some(a) => Ok(LayerRule { lo: a as usize, hi: a as usize, fmt }),
            None => Err((RecipeFault::BadLayerSelector, part)),
        }
    }
}

/// The overrides that the selectors ask for, in order; the first bad one is the error.
pub open spec fn rules_of_parts(parts: Seq<Seq<char>>, fmt: Fmt) -> Result<
    Seq<LayerRule>,
    (RecipeFault, Seq<char>),
>
    decreases parts.len(),
{
    if parts.len() == 0 {
        Ok(Seq::empty())
    } else {
        match rules_of_parts(parts.drop_last(), fmt) {
            Err(e) => Err(e),
            Ok(r) => match rule_of_part(trimmed(parts.last()), fmt) {
                Err(e) => Err(e),
                Ok(x) => Ok(r.push(x)),
            },
        }
    }
}

/// The overrides in one token: none unless it is a complete `layers:<sel>:<fmt>`.
pub open spec fn rules_of_token(tok: Seq<char>) -> Result<
    Seq<LayerRule>,
    (RecipeFault, Seq<char>),
> {
    if !is_layer_word(tok) {
        Ok(Seq::empty())
    } else {
        let body = layer_body(tok);
        let colon = last_of(body, ':');
        if colon < 0 {
            Ok(Seq::empty())
        } else {
            match fmt_of_word(body.skip(colon + 1)) {
                None => Err((RecipeFault::UnknownLayerFormat, body.skip(colon + 1))),
                Some(fmt) => rules_of_parts(
                    pieces(body.take(colon), |c: char| c == ',' || c == '+'),
                    fmt,
                ),
            }
        }
    }
}

/// The overrides in several tokens, in order; the first bad token is the error.
pub open spec fn rules_of_tokens(toks: Seq<Seq<char>>) -> Result<
    Seq<LayerRule>,
    (RecipeFault, Seq<char>),
>
    decreases toks.len(),
{
    if toks.len() == 0 {
        Ok(Seq::empty())
    } else {
        match rules_of_tokens(toks.drop_last()) {
            Err(e) => Err(e),
            Ok(r) => match rules_of_token(toks.last()) {
                Err(e) => Err(e),
                Ok(x) => Ok(r + x),
            },
        }
    }
}

proof fn lemma_parts_error_sticks(parts: Seq<Seq<char>>, fmt: Fmt, k: int)
    requires
        0 <= k <= parts.len(),
        rules_of_parts(parts.take(k), fmt) is Err,
    ensures
        rules_of_parts(parts, fmt) == rules_of_parts(parts.take(k), fmt),
    decreases parts.len() - k,
{
    if k < parts.len() {
        assert(parts.take(k + 1).drop_last() =~= parts.take(k));
        lemma_parts_error_sticks(parts, fmt, k + 1);
    } else {
        assert(parts.take(k) =~= parts);
    }
}

proof fn lemma_tokens_error_sticks(toks: Seq<Seq<char>>, k: int)
    requires
        0 <= k <= toks.len(),
        rules_of_tokens(toks.take(k)) is Err,
    ensures
        rules_of_tokens(toks) == rules_of_tokens(toks.take(k)),
    decreases toks.len() - k,
{
    if k < toks.len() {
        assert(toks.take(k + 1).drop_last() =~= toks.take(k));
        lemma_tokens_error_sticks(toks, k + 1);
    } else {
        assert(toks.take(k) =~= toks);
    }
}

fn fail(fault: RecipeFault, text: &[char]) -> (e: RecipeError)
    ensures
        e.view() == (fault, text@),
{
    RecipeError { fault, text: string_of(text) }
}

fn parse_layer(s: &[char]) -> (r: Option<usize>)
    ensures
        match r {
            Some(v) => layer_number(s@) == Some(v as nat),
            None => layer_number(s@) is None,
        },
{
    match parse_number(s, usize::MAX as u64) {
        Some(v) => Some(v as usize),
        None => None,
    }
}

fn parse_part(part: &[char], fmt: Fmt) -> (r: Result<LayerRule, RecipeError>)
    ensures
        match r {
            Ok(x) => rule_of_part(part@, fmt) == Ok::<LayerRule, (RecipeFault, Seq<char>)>(x),
            Err(e) => rule_of_part(part@, fmt) == Err::<LayerRule, (RecipeFault, Seq<char>)>(
                e.view(),
            ),
        },
{
    let dash: usize = find_char(part, '-');
    if dash < part.len() {
        let lo: Option<usize> = parse_layer(prefix(part, dash).as_slice());
        let hi: Option<usize> = parse_layer(tail(part, dash + 1).as_slice());
        match (lo, hi) {
            (Some(a), Some(b)) => if a <= b {
                Ok(LayerRule { lo: a, hi: b, fmt })
            } else {
                Err(fail(RecipeFault::BadLayerRange, part))
            },
            _ => Err(fail(RecipeFault::BadLayerRange, part)),
        }
    } else {
        match parse_layer(part) {
            Some(a) => Ok(LayerRule { lo: a, hi: a, fmt }),
            None => Err(fail(RecipeFault::BadLayerSelector, part)),
        }
    }
}

fn parse_layer_token(tok: &[char]) -> (r: Result<Vec<LayerRule>, RecipeError>)
    ensures
        match r {
            Ok(x) => rules_of_token(tok@) == Ok::<Seq<LayerRule>, (RecipeFault, Seq<char>)>(x@),
            Err(e) => rules_of_token(tok@) == Err::<Seq<LayerRule>, (RecipeFault, Seq<char>)>(
                e.view(),
            ),
        },
{
    let mut rules: Vec<LayerRule> = Vec::new();
    let body: Vec<char> = match layer_word(tok) {
        Some(b) => b,
        None => {
            return Ok(rules);
        },
    };
    let colon: usize = match rfind_char(body.as_slice(), ':') {
        Some(k) => k,
        None => {
            return Ok(rules);
        },
    };
    let word: Vec<char> = tail(body.as_slice(), colon + 1);
    let fmt: Fmt = match parse_fmt(word.as_slice()) {
        Some(f) => f,
        None => {
            return Err(fail(RecipeFault::UnknownLayerFormat, word.as_slice()));
        },
    };
    let sel: Vec<char> = prefix(body.as_slice(), colon);
    let parts: Vec<Vec<char>> = split(sel.as_slice(), ',', '+');
    let ghost v = views(parts@);
    let mut i: usize = 0;
    while i < parts.len()
        invariant
            i <= parts.len(),
            v == views(parts@),
            rules_of_token(tok@) == rules_of_parts(v, fmt),
            rules_of_parts(v.take(i as int), fmt) == Ok::<
                Seq<LayerRule>,
                (RecipeFault, Seq<char>),
            >(rules@),
        decreases parts.len() - i,
    {
        let p: Vec<char> = trim(parts[i].as_slice());
        proof {
            assert(v.take(i + 1).drop_last() =~= v.take(i as int));
            assert(v.take(i + 1).last() == parts@[i as int]@);
        }
        match parse_part(p.as_slice(), fmt) {
            Ok(x) => {
                rules.push(x);
            },
            Err(e) => {
                proof {
                    lemma_parts_error_sticks(v, fmt, i + 1);
                }
                return Err(e);
            },
        }
        i = i + 1;
    }
    proof {
        assert(v.take(v.len() as int) =~= v);
    }
    Ok(rules)
}

/// The per-layer overrides of a recipe, in order.
///
/// A token is `layers:<sel>:<fmt>`, where `<sel>` lists layers and inclusive ranges `lo-hi`,
/// separated by commas or plus signs.
pub fn parse_layer_rules(spec: &str) -> (r: Result<Vec<LayerRule>, RecipeError>)
    ensures
        match r {
            Ok(x) => rules_of_tokens(recipe_tokens(spec@)) == Ok::<
                Seq<LayerRule>,
                (RecipeFault, Seq<char>),
            >(x@),
            Err(e) => rules_of_tokens(recipe_tokens(spec@)) == Err::<
                Seq<LayerRule>,
                (RecipeFault, Seq<char>),
            >(e.view()),
        },
{
    let c: Vec<char> = chars_of(spec);
    let toks: Vec<Vec<char>> = tokenize(c.as_slice());
    let ghost v = views(toks@);
    let mut rules: Vec<LayerRule> = Vec::new();
    let mut i: usize = 0;
    while i < toks.len()
        invariant
            i <= toks.len(),
            v == views(toks@),
            v == recipe_tokens(spec@),
            rules_of_tokens(v.take(i as int)) == Ok::<Seq<LayerRule>, (RecipeFault, Seq<char>)>(
                rules@,
            ),
        decreases toks.len() - i,
    {
        proof {
            assert(v.take(i + 1).drop_last() =~= v.take(i as int));
            assert(v.take(i + 1).last() == toks@[i as int]@);
        }
        match parse_layer_token(toks[i].as_slice()) {
            Ok(x) => {
                extend_range(&mut rules, x.as_slice(), 0, x.len());
                proof {
                    assert(x@.subrange(0, x@.len() as int) =~= x@);
                }
            },
            Err(e) => {
                proof {
                    lemma_tokens_error_sticks(v, i + 1);
                }
                return Err(e);
            },
        }
        i = i + 1;
    }
    proof {
        assert(v.take(v.len() as int) =~= v);
    }
    Ok(rules)
}

// ---- group recipes ----

/// Every family that `all` stands for, in the order a recipe lists them.
pub open spec fn all_groups() -> Seq<Group> {
    seq![
        Group::Mlp,
        Group::Attn,
        Group::Gdn,
        Group::LmHead,
        Group::Embed,
        Group::Mtp,
        Group::Router,
        Group::Expert,
        Group::Hc,
        Group::Ple,
        Group::PleTable,
    ]
}

/// The families that a recipe word stands for.
pub open spec fn groups_of_word(w: Seq<char>) -> Option<Seq<Group>> {
    if w == "all"@ {
        Some(all_groups())
    } else if w == "mlp"@ {
        Some(seq![Group::Mlp])
    } else if w == "attn"@ {
        Some(seq![Group::Attn])
    } else if w == "gdn"@ {
        Some(seq![Group::Gdn])
    } else if w == "lmhead"@ {
        Some(seq![Group::LmHead])
    } else if w == "embed"@ {
        Some(seq![Group::Embed])
    } else if w == "mtp"@ {
        Some(seq![Group::Mtp])
    } else if w == "router"@ {
        Some(seq![Group::Router])
    } else if w == "expert"@ {
        Some(seq![Group::Expert])
    } else if w == "hc"@ {
        Some(seq![Group::Hc])
    } else if w == "ple"@ {
        Some(seq![Group::Ple])
    } else if w == "pletable"@ {
        Some(seq![Group::PleTable])
    } else {
        None
    }
}

/// The map without an entry for `g`.
pub open spec fn map_without(map: Seq<(Group, Fmt)>, g: Group) -> Seq<(Group, Fmt)> {
    map.filter(|e: (Group, Fmt)| e.0 != g)
}

/// The map after one family is dropped, or set to a format; high precision is the same as dropping.
pub open spec fn map_with(
    map: Seq<(Group, Fmt)>,
    g: Group,
    drop: bool,
    fmt: Fmt,
) -> Seq<(Group, Fmt)> {
    if !drop && fmt != Fmt::Bf16 {
        map_without(map, g).push((g, fmt))
    } else {
        map_without(map, g)
    }
}

/// The map after several families in turn.
pub open spec fn map_with_all(
    map: Seq<(Group, Fmt)>,
    gs: Seq<Group>,
    drop: bool,
    fmt: Fmt,
) -> Seq<(Group, Fmt)>
    decreases gs.len(),
{
    if gs.len() == 0 {
        map
    } else {
        map_with(map_with_all(map, gs.drop_last(), drop, fmt), gs.last(), drop, fmt)
    }
}

/// The map after one token: `group[:fmt]`, or `-group[:fmt]` to drop it. Layer overrides do not touch
/// the map.
pub open spec fn map_after_token(map: Seq<(Group, Fmt)>, tok: Seq<char>) -> Result<
    Seq<(Group, Fmt)>,
    (RecipeFault, Seq<char>),
> {
    if is_layer_word(tok) {
        Ok(map)
    } else {
        let drop = has_prefix(tok, "-"@);
        let body = without_prefix(tok, "-"@);
        let colon = first_of(body, ':');
        let fmt = if colon < body.len() {
            fmt_of_word(body.skip(colon + 1))
        } else {
            Some(Fmt::Nvfp4)
        };
        let name = body.take(colon);
        match fmt {
            None => Err((RecipeFault::UnknownFormat, body.skip(colon + 1))),
            Some(f) => match groups_of_word(name) {
                None => Err((RecipeFault::UnknownGroup, name)),
                Some(gs) => Ok(map_with_all(map, gs, drop, f)),
            },
        }
    }
}

/// The map after several tokens in turn; the first bad token is the error.
pub open spec fn map_of_tokens(toks: Seq<Seq<char>>) -> Result<
    Seq<(Group, Fmt)>,
    (RecipeFault, Seq<char>),
>
    decreases toks.len(),
{
    if toks.len() == 0 {
        Ok(Seq::empty())
    } else {
        match map_of_tokens(toks.drop_last()) {
            Err(e) => Err(e),
            Ok(m) => map_after_token(m, toks.last()),
        }
    }
}

/// The recipe asks for no quantization at all.
pub open spec fn is_off(spec: Seq<char>) -> bool {
    trimmed(spec).len() == 0 || trimmed(spec) == "off"@ || trimmed(spec) == "none"@
}

proof fn lemma_map_error_sticks(toks: Seq<Seq<char>>, k: int)
    requires
        0 <= k <= toks.len(),
        map_of_tokens(toks.take(k)) is Err,
    ensures
        map_of_tokens(toks) == map_of_tokens(toks.take(k)),
    decreases toks.len() - k,
{
    if k < toks.len() {
        assert(toks.take(k + 1).drop_last() =~= toks.take(k));
        lemma_map_error_sticks(toks, k + 1);
    } else {
        assert(toks.take(k) =~= toks);
    }
}

fn parse_groups(w: &[char]) -> (r: Option<Vec<Group>>)
    ensures
        match r {
            Some(v) => groups_of_word(w@) == Some(v@),
            None => groups_of_word(w@) is None,
        },
{
    if same_text(w, "all") {
        let v: Vec<Group> = vec![
            Group::Mlp,
            Group::Attn,
            Group::Gdn,
            Group::LmHead,
            Group::Embed,
            Group::Mtp,
            Group::Router,
            Group::Expert,
            Group::Hc,
            Group::Ple,
            Group::PleTable,
        ];
        proof {
            assert(v@ =~= all_groups());
        }
        return Some(v);
    }
    let g: Group = if same_text(w, "mlp") {
        Group::Mlp
    } else if same_text(w, "attn") {
        Group::Attn
    } else if same_text(w, "gdn") {
        Group::Gdn
    } else if same_text(w, "lmhead") {
        Group::LmHead
    } else if same_text(w, "embed") {
        Group::Embed
    } else if same_text(w, "mtp") {
        Group::Mtp
    } else if same_text(w, "router") {
        Group::Router
    } else if same_text(w, "expert") {
        Group::Expert
    } else if same_text(w, "hc") {
        Group::Hc
    } else if same_text(w, "ple") {
        Group::Ple
    } else if same_text(w, "pletable") {
        Group::PleTable
    } else {
        return None;
    };
    let v: Vec<Group> = vec![g];
    proof {
        assert(v@ =~= seq![g]);
    }
    Some(v)
}

/// Drops or sets one family.
fn set_group(map: &Vec<(Group, Fmt)>, g: Group, drop: bool, fmt: Fmt) -> (r: Vec<(Group, Fmt)>)
    ensures
        r@ == map_with(map@, g, drop, fmt),
{
    let mut r: Vec<(Group, Fmt)> = Vec::new();
    let mut i: usize = 0;
    proof {
        reveal(Seq::filter);
    }
    while i < map.len()
        invariant
            i <= map.len(),
            r@ == map_without(map@.take(i as int), g),
        decreases map.len() - i,
    {
        let e: (Group, Fmt) = map[i];
        proof {
            reveal(Seq::filter);
            assert(map@.take(i + 1).drop_last() =~= map@.take(i as int));
            assert(map@.take(i + 1).last() == e);
        }
        if e.0 != g {
            r.push(e);
        }
        i = i + 1;
    }
    proof {
        assert(map@.take(map@.len() as int) =~= map@);
    }
    if !drop && fmt != Fmt::Bf16 {
        r.push((g, fmt));
    }
    r
}

fn apply_token(map: Vec<(Group, Fmt)>, tok: &[char]) -> (r: Result<
    Vec<(Group, Fmt)>,
    RecipeError,
>)
    ensures
        match r {
            Ok(x) => map_after_token(map@, tok@) == Ok::<
                Seq<(Group, Fmt)>,
                (RecipeFault, Seq<char>),
            >(x@),
            Err(e) => map_after_token(map@, tok@) == Err::<
                Seq<(Group, Fmt)>,
                (RecipeFault, Seq<char>),
            >(e.view()),
        },
{
    match layer_word(tok) {
        Some(_) => {
            return Ok(map);
        },
        None => {},
    }
    let drop: bool = begins_with(tok, "-");
    let body: Vec<char> = strip_front(tok, "-");
    let colon: usize = find_char(body.as_slice(), ':');
    let fmt: Fmt = if colon < body.len() {
        let word: Vec<char> = tail(body.as_slice(), colon + 1);
        match parse_fmt(word.as_slice()) {
            Some(f) => f,
            None => {
                return Err(fail(RecipeFault::UnknownFormat, word.as_slice()));
            },
        }
    } else {
        Fmt::Nvfp4
    };
    let name: Vec<char> = prefix(body.as_slice(), colon);
    let gs: Vec<Group> = match parse_groups(name.as_slice()) {
        Some(v) => v,
        None => {
            return Err(fail(RecipeFault::UnknownGroup, name.as_slice()));
        },
    };
    let ghost map0 = map@;
    let mut cur: Vec<(Group, Fmt)> = map;
    let mut i: usize = 0;
    while i < gs.len()
        invariant
            i <= gs.len(),
            cur@ == map_with_all(map0, gs@.take(i as int), drop, fmt),
        decreases gs.len() - i,
    {
        proof {
            assert(gs@.take(i + 1).drop_last() =~= gs@.take(i as int));
            assert(gs@.take(i + 1).last() == gs@[i as int]);
        }
        cur = set_group(&cur, gs[i], drop, fmt);
        i = i + 1;
    }
    proof {
        assert(gs@.take(gs@.len() as int) =~= gs@);
    }
    Ok(cur)
}

/// The per-group format map of a recipe; `None` where it asks for no quantization.
///
/// Tokens are `group[:fmt]`, or `-group` to drop one, in order; `fmt` is `nvfp4` where it is left
/// out.
pub fn parse_recipe(spec: &str) -> (r: Result<Option<Vec<(Group, Fmt)>>, RecipeError>)
    ensures
        is_off(spec@) ==> (r matches Ok(m) && m is None),
        !is_off(spec@) ==> match r {
            Ok(m) => m matches Some(x) && map_of_tokens(recipe_tokens(trimmed(spec@))) == Ok::<
                Seq<(Group, Fmt)>,
                (RecipeFault, Seq<char>),
            >(x@),
            Err(e) => map_of_tokens(recipe_tokens(trimmed(spec@))) == Err::<
                Seq<(Group, Fmt)>,
                (RecipeFault, Seq<char>),
            >(e.view()),
        },
{
    let c: Vec<char> = chars_of(spec);
    let t: Vec<char> = trim(c.as_slice());
    if t.len() == 0 || same_text(t.as_slice(), "off") || same_text(t.as_slice(), "none") {
        return Ok(None);
    }
    let toks: Vec<Vec<char>> = tokenize(t.as_slice());
    let ghost v = views(toks@);
    let mut map: Vec<(Group, Fmt)> = Vec::new();
    let mut i: usize = 0;
    while i < toks.len()
        invariant
            i <= toks.len(),
            !is_off(spec@),
            v == views(toks@),
            v == recipe_tokens(trimmed(spec@)),
            map_of_tokens(v.take(i as int)) == Ok::<Seq<(Group, Fmt)>, (RecipeFault, Seq<char>)>(
                map@,
            ),
        decreases toks.len() - i,
    {
        proof {
            assert(v.take(i + 1).drop_last() =~= v.take(i as int));
            assert(v.take(i + 1).last() == toks@[i as int]@);
        }
        match apply_token(map, toks[i].as_slice()) {
            Ok(x) => {
                map = x;
            },
            Err(e) => {
                proof {
                    lemma_map_error_sticks(v, i + 1);
                }
                return Err(e);
            },
        }
        i = i + 1;
    }
    proof {
        assert(v.take(v.len() as int) =~= v);
    }
    Ok(Some(map))
}

// ---- choosing a format ----

/// The layer that the tensor `name` belongs to: the number after the last `layers.` of its stem.
pub open spec fn is_layer_index(name: Seq<char>, r: Option<usize>) -> bool {
    let stem = without_suffix(name, ".weight"@);
    if !contains_text(stem, "layers."@) {
        r is None
    } else {
        exists|k: int|
            {
                &&& #[trigger] occurs_at(stem, "layers."@, k)
                &&& forall|j: int| j > k ==> !occurs_at(stem, "layers."@, j)
                &&& r == layer_after(stem.skip(k + "layers."@.len()))
            }
    }
}

/// The number at the front of `rest`, where there is one that fits a `usize`.
pub open spec fn layer_after(rest: Seq<char>) -> Option<usize> {
    let d = leading_digits(rest);
    if d.len() == 0 {
        None
    } else {
        match layer_number(d) {
            Some(v) => Some(v as usize),
            None => None,
        }
    }
}

/// The layer that a tensor belongs to, by name.
pub fn layer_index_of(name: &str) -> (r: Option<usize>)
    ensures
        is_layer_index(name@, r),
{
    let c: Vec<char> = chars_of(name);
    let stem: Vec<char> = strip_back(c.as_slice(), ".weight");
    let at: usize = match after_last(stem.as_slice(), "layers.") {
        Some(j) => j,
        None => {
            return None;
        },
    };
    proof {
        let k = at - "layers."@.len();
        assert(occurs_at(stem@, "layers."@, k));
    }
    let rest: Vec<char> = tail(stem.as_slice(), at);
    let digits: Vec<char> = crate::text::front_digits(rest.as_slice());
    if digits.len() == 0 {
        return None;
    }
    parse_layer(digits.as_slice())
}

/// Index of the last rule that covers layer `li`, or -1.
pub open spec fn last_rule(rules: Seq<LayerRule>, li: int) -> int
    decreases rules.len(),
{
    if rules.len() == 0 {
        -1
    } else if rules.last().lo <= li <= rules.last().hi {
        rules.len() - 1
    } else {
        last_rule(rules.drop_last(), li)
    }
}

/// Index of the first entry for `g`, or the length.
pub open spec fn first_entry(map: Seq<(Group, Fmt)>, g: Group) -> int
    decreases map.len(),
{
    if map.len() == 0 {
        0
    } else if map[0].0 == g {
        0
    } else {
        1 + first_entry(map.skip(1), g)
    }
}

/// The format that the group map gives a tensor; high precision where it has none.
pub open spec fn fmt_in_map(map: Seq<(Group, Fmt)>, name: Seq<char>) -> Fmt {
    let g = group_of_name(name);
    let i = first_entry(map, g);
    if i < map.len() {
        map[i].1
    } else {
        Fmt::Bf16
    }
}

/// The format chosen for a tensor: the last rule for its layer, else the group map.
pub open spec fn fmt_with_rules(
    map: Seq<(Group, Fmt)>,
    rules: Seq<LayerRule>,
    name: Seq<char>,
    layer: Option<usize>,
) -> Fmt {
    match layer {
        Some(li) => if last_rule(rules, li as int) >= 0 {
            rules[last_rule(rules, li as int)].fmt
        } else {
            fmt_in_map(map, name)
        },
        None => fmt_in_map(map, name),
    }
}

proof fn lemma_first_entry(map: Seq<(Group, Fmt)>, g: Group, k: int)
    requires
        0 <= k <= map.len(),
        k < map.len() ==> map[k].0 == g,
        forall|i: int| 0 <= i < k ==> (#[trigger] map[i]).0 != g,
    ensures
        first_entry(map, g) == k,
    decreases map.len(),
{
    if k > 0 {
        assert(map[0].0 != g);
        let t = map.skip(1);
        assert forall|i: int| 0 <= i < k - 1 implies (#[trigger] t[i]).0 != g by {
            assert(map[i + 1].0 != g);
        }
        lemma_first_entry(t, g, k - 1);
    }
}

/// The format that the group map gives a tensor.
pub fn fmt_for(map: &[(Group, Fmt)], name: &str) -> (f: Fmt)
    ensures
        f == fmt_in_map(map@, name@),
{
    let g: Group = group_of(name);
    let mut i: usize = 0;
    while i < map.len() && map[i].0 != g
        invariant
            i <= map.len(),
            forall|k: int| 0 <= k < i ==> (#[trigger] map@[k]).0 != g,
        decreases map.len() - i,
    {
        i = i + 1;
    }
    proof {
        lemma_first_entry(map@, g, i as int);
    }
    if i < map.len() {
        map[i].1
    } else {
        Fmt::Bf16
    }
}

/// The format chosen for a tensor: a rule for its layer wins over the group map, and the last rule
/// wins over earlier ones.
pub fn fmt_for_layer(map: &[(Group, Fmt)], rules: &[LayerRule], name: &str) -> (f: Fmt)
    ensures
        exists|layer: Option<usize>| #[trigger]
            is_layer_index(name@, layer) && f == fmt_with_rules(map@, rules@, name@, layer),
{
    let layer: Option<usize> = layer_index_of(name);
    proof {
        assert(is_layer_index(name@, layer));
    }
    match layer {
        Some(li) => {
            let mut i: usize = rules.len();
            proof {
                assert(rules@.take(rules@.len() as int) =~= rules@);
            }
            while i > 0
                invariant
                    i <= rules.len(),
                    layer == Some(li),
                    is_layer_index(name@, layer),
                    last_rule(rules@, li as int) == last_rule(rules@.take(i as int), li as int),
                decreases i,
            {
                i = i - 1;
                let r: LayerRule = rules[i];
                proof {
                    assert(rules@.take(i + 1).drop_last() =~= rules@.take(i as int));
                    assert(rules@.take(i + 1).last() == r);
                }
                if li >= r.lo && li <= r.hi {
                    return r.fmt;
                }
            }
        },
        None => {},
    }
    fmt_for(map, name)
}

/// A tensor has one layer at most, so its chosen format is one.
pub proof fn law_layer_index_is_unique(name: Seq<char>, a: Option<usize>, b: Option<usize>)
    requires
        is_layer_index(name, a),
        is_layer_index(name, b),
    ensures
        a == b,
{
    let stem = without_suffix(name, ".weight"@);
    if contains_text(stem, "layers."@) {
        let j = choose|k: int|
            {
                &&& #[trigger] occurs_at(stem, "layers."@, k)
                &&& forall|j: int| j > k ==> !occurs_at(stem, "layers."@, j)
                &&& a == layer_after(stem.skip(k + "layers."@.len()))
            };
        let k = choose|k: int|
            {
                &&& #[trigger] occurs_at(stem, "layers."@, k)
                &&& forall|j: int| j > k ==> !occurs_at(stem, "layers."@, j)
                &&& b == layer_after(stem.skip(k + "layers."@.len()))
            };
        assert(j == k);
    }
}

/// A rule appended to the list decides every layer it covers, and changes no other.
pub proof fn law_later_rule_wins(
    map: Seq<(Group, Fmt)>,
    rules: Seq<LayerRule>,
    r: LayerRule,
    name: Seq<char>,
    li: usize,
)
    ensures
        r.lo <= li <= r.hi ==> fmt_with_rules(map, rules.push(r), name, Some(li)) == r.fmt,
        !(r.lo <= li <= r.hi) ==> fmt_with_rules(map, rules.push(r), name, Some(li))
            == fmt_with_rules(map, rules, name, Some(li)),
        fmt_with_rules(map, rules.push(r), name, None) == fmt_in_map(map, name),
{
    assert(rules.push(r).drop_last() =~= rules);
    lemma_last_rule(rules, li as int);
}

proof fn lemma_last_rule(rules: Seq<LayerRule>, li: int)
    ensures
        -1 <= last_rule(rules, li) < rules.len(),
    decreases rules.len(),
{
    if rules.len() > 0 {
        lemma_last_rule(rules.drop_last(), li);
    }
}

} // verus!
