//! HuggingFace Hub conventions: recognising quantization levels and parameter
//! counts in model file names, guessing a model's category from its tags,
//! turning a repository's file listing into downloadable files, and building
//! the Hub's URLs.
use vstd::prelude::*;

use crate::registry::{RegistryError, RemoteFile};
use crate::download::{status_display, status_reason};
use vstd::string::StringSliceAdditionalSpecFns;
use crate::text::{chars_of, contains, contains_chars, ends_with, ends_with_chars, find_first, join, join_strings, lowercased, occurs_at, replace_char, replace_char_chars, slice_range, string_of, to_lowercase, to_uppercase, uppercased, chars_eq};

verus! {

broadcast use vstd::string::group_string_axioms;

/// Quantization level of a GGUF model file.
#[allow(non_camel_case_types)]
#[derive(Clone, Copy, Debug, PartialEq, Eq, Structural)]
pub enum Quantization {
    IQ4XS,
    Q2K,
    Q3KS,
    Q3KM,
    Q3KL,
    Q4_0,
    Q4_1,
    Q4KS,
    Q4KM,
    Q5_0,
    Q5_1,
    Q5KS,
    Q5KM,
    Q6K,
    Q8_0,
    F16,
    F32,
}

/// Broad use category of a model.
#[derive(Clone, Copy, Debug, PartialEq, Eq, Structural)]
pub enum ModelCategory {
    General,
    Code,
    Chat,
    Instruction,
    Math,
    Multilingual,
}

/// Number of entries in the quantization table.
pub const QUANT_TABLE_LEN: usize = 17;

/// The quantization table, checked in order: the more specific names come
/// first so that a longer name is not mistaken for a shorter one.
pub open spec fn quant_pattern(i: int) -> (Seq<char>, Quantization) {
    if i == 0 {
        ("IQ4_XS"@, Quantization::IQ4XS)
    } else if i == 1 {
        ("Q3_K_S"@, Quantization::Q3KS)
    } else if i == 2 {
        ("Q3_K_M"@, Quantization::Q3KM)
    } else if i == 3 {
        ("Q3_K_L"@, Quantization::Q3KL)
    } else if i == 4 {
        ("Q4_K_S"@, Quantization::Q4KS)
    } else if i == 5 {
        ("Q4_K_M"@, Quantization::Q4KM)
    } else if i == 6 {
        ("Q5_K_S"@, Quantization::Q5KS)
    } else if i == 7 {
        ("Q5_K_M"@, Quantization::Q5KM)
    } else if i == 8 {
        ("Q2_K"@, Quantization::Q2K)
    } else if i == 9 {
        ("Q6_K"@, Quantization::Q6K)
    } else if i == 10 {
        ("Q8_0"@, Quantization::Q8_0)
    } else if i == 11 {
        ("Q4_0"@, Quantization::Q4_0)
    } else if i == 12 {
        ("Q4_1"@, Quantization::Q4_1)
    } else if i == 13 {
        ("Q5_0"@, Quantization::Q5_0)
    } else if i == 14 {
        ("Q5_1"@, Quantization::Q5_1)
    } else if i == 15 {
        ("F16"@, Quantization::F16)
    } else {
        ("F32"@, Quantization::F32)
    }
}

fn quant_entry(i: usize) -> (r: (&'static str, Quantization))
    requires
        i < QUANT_TABLE_LEN,
    ensures
        r.0@ == quant_pattern(i as int).0,
        r.1 == quant_pattern(i as int).1,
{
    match i {
        0 => ("IQ4_XS", Quantization::IQ4XS),
        1 => ("Q3_K_S", Quantization::Q3KS),
        2 => ("Q3_K_M", Quantization::Q3KM),
        3 => ("Q3_K_L", Quantization::Q3KL),
        4 => ("Q4_K_S", Quantization::Q4KS),
        5 => ("Q4_K_M", Quantization::Q4KM),
        6 => ("Q5_K_S", Quantization::Q5KS),
        7 => ("Q5_K_M", Quantization::Q5KM),
        8 => ("Q2_K", Quantization::Q2K),
        9 => ("Q6_K", Quantization::Q6K),
        10 => ("Q8_0", Quantization::Q8_0),
        11 => ("Q4_0", Quantization::Q4_0),
        12 => ("Q4_1", Quantization::Q4_1),
        13 => ("Q5_0", Quantization::Q5_0),
        14 => ("Q5_1", Quantization::Q5_1),
        15 => ("F16", Quantization::F16),
        _ => ("F32", Quantization::F32),
    }
}

/// Table entry `i` is the first one whose name occurs in `upper`.
pub open spec fn is_first_quant_match(upper: Seq<char>, i: int) -> bool {
    &&& 0 <= i < QUANT_TABLE_LEN
    &&& contains(upper, quant_pattern(i).0)
    &&& forall|j: int| 0 <= j < i ==> !contains(upper, #[trigger] quant_pattern(j).0)
}

/// The quantization named in an upper-cased file name: that of the first
/// table entry whose name occurs in it, or none.
pub open spec fn quantization_in(upper: Seq<char>) -> Option<Quantization> {
    if exists|i: int| is_first_quant_match(upper, i) {
        Some(quant_pattern(choose|i: int| is_first_quant_match(upper, i)).1)
    } else {
        None
    }
}

proof fn lemma_first_quant_match_unique(upper: Seq<char>, i: int, k: int)
    requires
        is_first_quant_match(upper, i),
        is_first_quant_match(upper, k),
    ensures
        i == k,
{
    if i < k {
        assert(!contains(upper, quant_pattern(i).0));
    } else if k < i {
        assert(!contains(upper, quant_pattern(k).0));
    }
}

/// The name a quantization level goes by in GGUF file names.
pub open spec fn quant_name(q: Quantization) -> Seq<char> {
    match q {
        Quantization::IQ4XS => "IQ4_XS"@,
        Quantization::Q2K => "Q2_K"@,
        Quantization::Q3KS => "Q3_K_S"@,
        Quantization::Q3KM => "Q3_K_M"@,
        Quantization::Q3KL => "Q3_K_L"@,
        Quantization::Q4_0 => "Q4_0"@,
        Quantization::Q4_1 => "Q4_1"@,
        Quantization::Q4KS => "Q4_K_S"@,
        Quantization::Q4KM => "Q4_K_M"@,
        Quantization::Q5_0 => "Q5_0"@,
        Quantization::Q5_1 => "Q5_1"@,
        Quantization::Q5KS => "Q5_K_S"@,
        Quantization::Q5KM => "Q5_K_M"@,
        Quantization::Q6K => "Q6_K"@,
        Quantization::Q8_0 => "Q8_0"@,
        Quantization::F16 => "F16"@,
        Quantization::F32 => "F32"@,
    }
}

proof fn lemma_table_names_its_variant(k: int)
    requires
        0 <= k < QUANT_TABLE_LEN,
    ensures
        quant_name(quant_pattern(k).1) == quant_pattern(k).0,
{
}

/// The quantization parsed from a file name is one whose own name occurs in
/// the (upper-cased) file name, and no two names of the table stand for the
/// same quantization.
pub proof fn parsed_quantization_is_named_in_file(upper: Seq<char>, i: int, j: int)
    ensures
        quantization_in(upper) matches Some(q) ==> contains(upper, quant_name(q)),
        0 <= i < QUANT_TABLE_LEN && 0 <= j < QUANT_TABLE_LEN && i != j ==> quant_pattern(i).1
            != quant_pattern(j).1,
{
    if exists|k: int| is_first_quant_match(upper, k) {
        let k = choose|k: int| is_first_quant_match(upper, k);
        lemma_table_names_its_variant(k);
    }
}

/// The quantization named in an already upper-cased file name.
pub fn quantization_from_upper(upper: &str) -> (r: Option<Quantization>)
    ensures
        r == quantization_in(upper@),
{
    let u = chars_of(upper);
    let mut i: usize = 0;
    while i < QUANT_TABLE_LEN
        invariant
            i <= QUANT_TABLE_LEN,
            u@ == upper@,
            forall|j: int| 0 <= j < i ==> !contains(upper@, #[trigger] quant_pattern(j).0),
        decreases QUANT_TABLE_LEN - i,
    {
        let (pat, q) = quant_entry(i);
        let p = chars_of(pat);
        if contains_chars(&u, &p) {
            proof {
                assert(is_first_quant_match(upper@, i as int));
                let k = choose|k: int| is_first_quant_match(upper@, k);
                lemma_first_quant_match_unique(upper@, i as int, k);
            }
            return Some(q);
        }
        i = i + 1;
    }
    None
}

/// Parse the quantization level out of a GGUF file name, ignoring case
/// (`Model-Q4_K_M.gguf`, `model.q4_k_m.gguf`, `model-IQ4_XS.gguf`, ...).
pub fn parse_quantization_from_filename(filename: &str) -> (r: Option<Quantization>)
    ensures
        r == quantization_in(uppercased(filename@)),
{
    let upper = to_uppercase(filename);
    quantization_from_upper(upper.as_str())
}

/// The category that one lower-cased tag points to, if any.
pub open spec fn tag_category(t: Seq<char>) -> Option<ModelCategory> {
    if contains(t, "code"@) || contains(t, "coder"@) || contains(t, "starcoder"@) {
        Some(ModelCategory::Code)
    } else if contains(t, "chat"@) || contains(t, "conversational"@) {
        Some(ModelCategory::Chat)
    } else if contains(t, "instruct"@) {
        Some(ModelCategory::Instruction)
    } else if contains(t, "math"@) {
        Some(ModelCategory::Math)
    } else if contains(t, "multilingual"@) {
        Some(ModelCategory::Multilingual)
    } else {
        None
    }
}

/// The category of a model with the given lower-cased tags: that of the
/// first tag that points to one, or `General`.
pub open spec fn category_of_tags(tags: Seq<Seq<char>>) -> ModelCategory
    decreases tags.len(),
{
    if tags.len() == 0 {
        ModelCategory::General
    } else {
        match tag_category(tags[0]) {
            Some(c) => c,
            None => category_of_tags(tags.drop_first()),
        }
    }
}

fn contains_str(t: &Vec<char>, p: &str) -> (r: bool)
    ensures
        r == contains(t@, p@),
{
    let pc = chars_of(p);
    contains_chars(t, &pc)
}

/// The category that one lower-cased tag points to, if any.
pub fn category_of_tag(tag: &str) -> (r: Option<ModelCategory>)
    ensures
        r == tag_category(tag@),
{
    let t = chars_of(tag);
    if contains_str(&t, "code") || contains_str(&t, "coder") || contains_str(&t, "starcoder") {
        Some(ModelCategory::Code)
    } else if contains_str(&t, "chat") || contains_str(&t, "conversational") {
        Some(ModelCategory::Chat)
    } else if contains_str(&t, "instruct") {
        Some(ModelCategory::Instruction)
    } else if contains_str(&t, "math") {
        Some(ModelCategory::Math)
    } else if contains_str(&t, "multilingual") {
        Some(ModelCategory::Multilingual)
    } else {
        None
    }
}

/// Guess a model's category from its HuggingFace tags, ignoring case.
pub fn guess_category(tags: &[String]) -> (r: ModelCategory)
    ensures
        r == category_of_tags(tags@.map_values(|t: String| lowercased(t@))),
{
    let ghost lows = tags@.map_values(|t: String| lowercased(t@));
    proof {
        assert(lows.skip(0) =~= lows);
    }
    let mut i: usize = 0;
    while i < tags.len()
        invariant
            i <= tags@.len(),
            lows == tags@.map_values(|t: String| lowercased(t@)),
            category_of_tags(lows) == category_of_tags(lows.skip(i as int)),
        decreases tags@.len() - i,
    {
        let t = to_lowercase(tags[i].as_str());
        proof {
            assert(lows.skip(i as int).drop_first() =~= lows.skip(i + 1));
            assert(lows.skip(i as int)[0] == t@);
        }
        match category_of_tag(t.as_str()) {
            Some(c) => {
                return c;
            },
            None => {},
        }
        i = i + 1;
    }
    proof {
        assert(lows.skip(i as int).len() == 0);
    }
    ModelCategory::General
}

/// Number of entries in the parameter-count table.
pub const PARAM_TABLE_LEN: usize = 26;

/// The parameter-count table: a size suffix and the size it stands for, in
/// tenths of a billion parameters. Decimal sizes come before the integer
/// sizes they end with ("3.8b" before "8b").
#[verifier::opaque]
pub open spec fn param_pattern(i: int) -> (Seq<char>, u32) {
    if i == 0 {
        ("405b"@, 4050)
    } else if i == 1 {
        ("236b"@, 2360)
    } else if i == 2 {
        ("180b"@, 1800)
    } else if i == 3 {
        ("72b"@, 720)
    } else if i == 4 {
        ("70b"@, 700)
    } else if i == 5 {
        ("65b"@, 650)
    } else if i == 6 {
        ("46.7b"@, 467)
    } else if i == 7 {
        ("34b"@, 340)
    } else if i == 8 {
        ("33b"@, 330)
    } else if i == 9 {
        ("32b"@, 320)
    } else if i == 10 {
        ("27b"@, 270)
    } else if i == 11 {
        ("22b"@, 220)
    } else if i == 12 {
        ("14b"@, 140)
    } else if i == 13 {
        ("13b"@, 130)
    } else if i == 14 {
        ("12b"@, 120)
    } else if i == 15 {
        ("11b"@, 110)
    } else if i == 16 {
        ("3.8b"@, 38)
    } else if i == 17 {
        ("9b"@, 90)
    } else if i == 18 {
        ("8b"@, 80)
    } else if i == 19 {
        ("7b"@, 70)
    } else if i == 20 {
        ("2.7b"@, 27)
    } else if i == 21 {
        ("3b"@, 30)
    } else if i == 22 {
        ("1.5b"@, 15)
    } else if i == 23 {
        ("2b"@, 20)
    } else if i == 24 {
        ("0.5b"@, 5)
    } else {
        ("1b"@, 10)
    }
}

fn param_entry(i: usize) -> (r: (&'static str, u32))
    requires
        i < PARAM_TABLE_LEN,
    ensures
        r.0@ == param_pattern(i as int).0,
        r.1 == param_pattern(i as int).1,
{
    reveal(param_pattern);
    match i {
        0 => ("405b", 4050),
        1 => ("236b", 2360),
        2 => ("180b", 1800),
        3 => ("72b", 720),
        4 => ("70b", 700),
        5 => ("65b", 650),
        6 => ("46.7b", 467),
        7 => ("34b", 340),
        8 => ("33b", 330),
        9 => ("32b", 320),
        10 => ("27b", 270),
        11 => ("22b", 220),
        12 => ("14b", 140),
        13 => ("13b", 130),
        14 => ("12b", 120),
        15 => ("11b", 110),
        16 => ("3.8b", 38),
        17 => ("9b", 90),
        18 => ("8b", 80),
        19 => ("7b", 70),
        20 => ("2.7b", 27),
        21 => ("3b", 30),
        22 => ("1.5b", 15),
        23 => ("2b", 20),
        24 => ("0.5b", 5),
        _ => ("1b", 10),
    }
}

/// A character that may stand before a size suffix.
pub open spec fn is_name_separator(c: char) -> bool {
    c == '-' || c == '_' || c == '.' || c == ' ' || c == '/'
}

/// The position of the first occurrence of `p` in `s`, if any.
pub open spec fn first_occurrence(s: Seq<char>, p: Seq<char>) -> Option<int> {
    if contains(s, p) {
        Some(
            choose|i: int|
                occurs_at(s, p, i) && forall|j: int| 0 <= j < i ==> !occurs_at(s, p, j),
        )
    } else {
        None
    }
}

/// Pattern `p` counts in `text`: its first occurrence starts the text or
/// follows a separator.
pub open spec fn pattern_at_boundary(text: Seq<char>, p: Seq<char>) -> bool {
    match first_occurrence(text, p) {
        Some(pos) => pos == 0 || is_name_separator(text[pos - 1]),
        None => false,
    }
}

/// Table entry `i` is the first one that counts in `text`.
pub open spec fn is_first_param_match(text: Seq<char>, i: int) -> bool {
    &&& 0 <= i < PARAM_TABLE_LEN
    &&& pattern_at_boundary(text, param_pattern(i).0)
    &&& forall|j: int| 0 <= j < i ==> !pattern_at_boundary(text, #[trigger] param_pattern(j).0)
}

/// The size (in tenths of a billion) that a lower-cased name states.
pub open spec fn param_size_in(text: Seq<char>) -> Option<u32> {
    if exists|i: int| is_first_param_match(text, i) {
        Some(param_pattern(choose|i: int| is_first_param_match(text, i)).1)
    } else {
        None
    }
}

proof fn lemma_first_occurrence_unique(s: Seq<char>, p: Seq<char>, i: int)
    requires
        occurs_at(s, p, i),
        forall|j: int| 0 <= j < i ==> !occurs_at(s, p, j),
    ensures
        first_occurrence(s, p) == Some(i),
{
    let k = choose|k: int| occurs_at(s, p, k) && forall|j: int| 0 <= j < k ==> !occurs_at(s, p, j);
    assert(occurs_at(s, p, k) && forall|j: int| 0 <= j < k ==> !occurs_at(s, p, j));
    if k < i {
        assert(!occurs_at(s, p, k));
    } else if i < k {
        assert(!occurs_at(s, p, i));
    }
}

proof fn lemma_first_param_match_unique(text: Seq<char>, i: int, k: int)
    requires
        is_first_param_match(text, i),
        is_first_param_match(text, k),
    ensures
        i == k,
{
    if i < k {
        assert(!pattern_at_boundary(text, param_pattern(i).0));
    } else if k < i {
        assert(!pattern_at_boundary(text, param_pattern(k).0));
    }
}

proof fn lemma_param_size_found(text: Seq<char>, i: int)
    requires
        0 <= i < PARAM_TABLE_LEN,
        pattern_at_boundary(text, param_pattern(i).0),
        forall|j: int| 0 <= j < i ==> !pattern_at_boundary(text, #[trigger] param_pattern(j).0),
    ensures
        param_size_in(text) == Some(param_pattern(i).1),
{
    assert(is_first_param_match(text, i));
    let k = choose|k: int| is_first_param_match(text, k);
    lemma_first_param_match_unique(text, i, k);
}

fn is_separator(c: char) -> (r: bool)
    ensures
        r == is_name_separator(c),
{
    c == '-' || c == '_' || c == '.' || c == ' ' || c == '/'
}

/// Whether the first occurrence of `p` in `text` is at a word boundary.
fn at_boundary(text: &Vec<char>, p: &str) -> (r: bool)
    ensures
        r == pattern_at_boundary(text@, p@),
{
    let pc = chars_of(p);
    match find_first(text, &pc) {
        Some(pos) => {
            proof {
                lemma_first_occurrence_unique(text@, p@, pos as int);
            }
            pos == 0 || is_separator(text[pos - 1])
        },
        None => false,
    }
}

/// The size (in tenths of a billion parameters) stated by a lower-cased
/// name or tag, if any.
pub fn match_param_pattern(text: &str) -> (r: Option<u32>)
    ensures
        r == param_size_in(text@),
{
    let t = chars_of(text);
    let mut i: usize = 0;
    while i < PARAM_TABLE_LEN
        invariant
            i <= PARAM_TABLE_LEN,
            t@ == text@,
            forall|j: int| 0 <= j < i ==> !pattern_at_boundary(text@, #[trigger] param_pattern(j).0),
        decreases PARAM_TABLE_LEN - i,
    {
        let (pat, size) = param_entry(i);
        if at_boundary(&t, pat) {
            proof {
                lemma_param_size_found(text@, i as int);
            }
            return Some(size);
        }
        i = i + 1;
    }
    None
}

/// Extract a model's parameter count, in tenths of a billion, from its name
/// or else its tags; 0 when neither states one.
pub fn param_count_tenths(name: &str, tags: &[String]) -> (r: u32)
    ensures
        r == (match param_size_in(lowercased(name@)) {
            Some(s) => s,
            None => first_tag_param_count(tags@.map_values(|t: String| lowercased(t@))),
        }),
{
    let lower = to_lowercase(name);
    match match_param_pattern(lower.as_str()) {
        Some(s) => {
            return s;
        },
        None => {},
    }
    let ghost lows = tags@.map_values(|t: String| lowercased(t@));
    proof {
        assert(lows.skip(0) =~= lows);
    }
    let mut i: usize = 0;
    while i < tags.len()
        invariant
            i <= tags@.len(),
            param_size_in(lowercased(name@)) is None,
            lows == tags@.map_values(|t: String| lowercased(t@)),
            first_tag_param_count(lows) == first_tag_param_count(lows.skip(i as int)),
        decreases tags@.len() - i,
    {
        let t = to_lowercase(tags[i].as_str());
        proof {
            assert(lows.skip(i as int).drop_first() =~= lows.skip(i + 1));
            assert(lows.skip(i as int)[0] == t@);
        }
        match match_param_pattern(t.as_str()) {
            Some(s) => {
                return s;
            },
            None => {},
        }
        i = i + 1;
    }
    0
}

/// The size stated by the first lower-cased tag that states one, or 0.
pub open spec fn first_tag_param_count(tags: Seq<Seq<char>>) -> u32
    decreases tags.len(),
{
    if tags.len() == 0 {
        0
    } else {
        match param_size_in(tags[0]) {
            Some(s) => s,
            None => first_tag_param_count(tags.drop_first()),
        }
    }
}

/// The model name of a repository id: the part after its last `/`.
pub open spec fn repo_model_name(id: Seq<char>) -> Seq<char> {
    if exists|i: int| 0 <= i < id.len() && id[i] == '/' {
        id.skip(
            (choose|i: int|
                0 <= i < id.len() && id[i] == '/' && forall|j: int|
                    i < j < id.len() ==> id[j] != '/') + 1,
        )
    } else {
        id
    }
}

/// The model name of a repository id (`owner/name` gives `name`).
pub fn model_name_from_repo(id: &str) -> (r: String)
    ensures
        r@ == repo_model_name(id@),
{
    let c = chars_of(id);
    let mut k: usize = c.len();
    while k > 0 && c[k - 1] != '/'
        invariant
            k <= c@.len(),
            c@ == id@,
            forall|j: int| k <= j < c@.len() ==> c@[j] != '/',
        decreases k,
    {
        k = k - 1;
    }
    if k == 0 {
        proof {
            assert(!(exists|i: int| 0 <= i < id@.len() && id@[i] == '/'));
        }
        id.to_owned()
    } else {
        proof {
            let i = (k - 1) as int;
            assert(0 <= i < id@.len() && id@[i] == '/' && forall|j: int|
                i < j < id@.len() ==> id@[j] != '/');
            let w = choose|w: int|
                0 <= w < id@.len() && id@[w] == '/' && forall|j: int|
                    w < j < id@.len() ==> id@[j] != '/';
            if w < i {
                assert(id@[i] != '/');
            } else if i < w {
                assert(id@[w] != '/');
            }
        }
        let tail = slice_range(&c, k, c.len());
        proof {
            assert(tail@ =~= id@.skip(k as int));
        }
        string_of(&tail)
    }
}

/// A file entry of a HuggingFace repository listing.
#[derive(Clone, Debug)]
pub struct HfSibling {
    pub filename: String,
    pub size: Option<u64>,
}

/// The download URL of a file in a HuggingFace repository.
pub open spec fn resolve_url(repo_id: Seq<char>, filename: Seq<char>) -> Seq<char> {
    "https://huggingface.co/"@ + repo_id + "/resolve/main/"@ + filename
}

/// Build the download URL of a file in a HuggingFace repository.
pub fn download_url(repo_id: &str, filename: &str) -> (r: String)
    ensures
        r@ == resolve_url(repo_id@, filename@),
{
    let mut u = "https://huggingface.co/".to_owned();
    u.append(repo_id);
    u.append("/resolve/main/");
    u.append(filename);
    u
}

/// The listing entry names a GGUF file.
pub open spec fn is_gguf_entry(s: HfSibling) -> bool {
    ends_with(s.filename@, ".gguf"@)
}

/// `f` is the downloadable file that the listing entry `s` describes.
pub open spec fn describes(repo_id: Seq<char>, s: HfSibling, f: RemoteFile) -> bool {
    &&& f.filename == s.filename
    &&& f.size_bytes == (match s.size {
        Some(n) => n,
        None => 0,
    })
    &&& f.sha256 is None
    &&& f.quantization == quantization_in(uppercased(s.filename@))
    &&& f.download_url@ == resolve_url(repo_id, s.filename@)
}

/// Turn a repository listing into its downloadable GGUF files, in listing
/// order.
pub fn remote_files_from_siblings(repo_id: &str, siblings: Vec<HfSibling>) -> (r: Vec<RemoteFile>)
    ensures
        r@.len() == gguf_entries(siblings@).len(),
        forall|a: int|
            0 <= a < r@.len() ==> describes(repo_id@, gguf_entries(siblings@)[a], #[trigger] r@[a]),
{
    let mut out: Vec<RemoteFile> = Vec::new();
    let suffix = chars_of(".gguf");
    let mut i: usize = 0;
    while i < siblings.len()
        invariant
            i <= siblings@.len(),
            suffix@ == ".gguf"@,
            out@.len() == gguf_entries(siblings@.take(i as int)).len(),
            forall|a: int|
                0 <= a < out@.len() ==> describes(
                    repo_id@,
                    gguf_entries(siblings@.take(i as int))[a],
                    #[trigger] out@[a],
                ),
        decreases siblings@.len() - i,
    {
        let s = &siblings[i];
        proof {
            assert(siblings@.take(i + 1).drop_last() =~= siblings@.take(i as int));
            assert(siblings@.take(i + 1).last() == siblings@[i as int]);
            reveal(Seq::filter);
        }
        let name = chars_of(s.filename.as_str());
        if ends_with_chars(&name, &suffix) {
            let f = RemoteFile {
                filename: s.filename.clone(),
                size_bytes: match s.size {
                    Some(n) => n,
                    None => 0,
                },
                sha256: None,
                quantization: parse_quantization_from_filename(s.filename.as_str()),
                download_url: download_url(repo_id, s.filename.as_str()),
            };
            out.push(f);
        }
        i = i + 1;
    }
    proof {
        assert(siblings@.take(siblings@.len() as int) =~= siblings@);
    }
    out
}

/// The entries of a listing that name GGUF files, in listing order.
pub open spec fn gguf_entries(siblings: Seq<HfSibling>) -> Seq<HfSibling> {
    siblings.filter(|s: HfSibling| is_gguf_entry(s))
}

/// The API URL describing one model repository.
pub fn model_api_url(model_id: &str) -> (r: String)
    ensures
        r@ == "https://huggingface.co/api/models/"@ + model_id@,
{
    let mut u = "https://huggingface.co/api/models/".to_owned();
    u.append(model_id);
    u
}

/// A byte that query encoding leaves as it is: ASCII letters, digits and
/// `-`, `.`, `_`, `~`.
pub open spec fn is_url_safe_byte(b: u8) -> bool {
    (48 <= b <= 57) || (65 <= b <= 90) || (97 <= b <= 122) || b == 45 || b == 46 || b == 95
        || b == 126
}

/// Upper-case hexadecimal digit for a value below 16.
pub open spec fn hex_upper_digit(d: u8) -> char {
    if d < 10 {
        ((d + 48) as u8) as char
    } else {
        ((d + 55) as u8) as char
    }
}

/// Percent-encoding of bytes: safe bytes stay as characters, every other
/// byte becomes `%` and two upper-case hexadecimal digits.
pub open spec fn percent_encoded(bytes: Seq<u8>) -> Seq<char>
    decreases bytes.len(),
{
    if bytes.len() == 0 {
        Seq::empty()
    } else {
        let b = bytes[0];
        let head = if is_url_safe_byte(b) {
            seq![b as char]
        } else {
            seq!['%', hex_upper_digit(b / 16), hex_upper_digit(b % 16)]
        };
        head + percent_encoded(bytes.drop_first())
    }
}

/// Calls `urlencoding::encode`, which percent-encodes the UTF-8 bytes of its
/// argument, keeping ASCII letters, digits and `-`, `.`, `_`, `~`.
#[verifier::external_body]
fn url_encode(s: &str) -> (r: String)
    ensures
        r@ == percent_encoded(s.spec_bytes()),
{
    urlencoding::encode(s).into_owned()
}

/// Decimal digit character for a value below 10.
pub open spec fn decimal_digit(d: nat) -> char {
    ((d + 48) as u8) as char
}

/// Decimal representation of a number, without leading zeros.
pub open spec fn decimal(n: nat) -> Seq<char>
    decreases n,
{
    if n < 10 {
        seq![decimal_digit(n)]
    } else {
        decimal(n / 10).push(decimal_digit(n % 10))
    }
}

/// The decimal representation of `n`.
pub fn decimal_string(n: u64) -> (r: String)
    ensures
        r@ == decimal(n as nat),
    decreases n,
{
    if n < 10 {
        let mut s = String::new();
        s.push(((n as u8) + 48) as char);
        proof {
            assert(s@ =~= seq![decimal_digit(n as nat)]);
        }
        s
    } else {
        let mut s = decimal_string(n / 10);
        s.push((((n % 10) as u8) + 48) as char);
        s
    }
}

/// The Hub search URL for GGUF models matching a query, most downloaded
/// first, at most `limit` results.
pub open spec fn search_url_spec(query: Seq<u8>, limit: nat) -> Seq<char> {
    "https://huggingface.co/api/models?search="@ + percent_encoded(query)
        + "&filter=gguf&sort=downloads&direction=-1&limit="@ + decimal(limit)
}

/// Build the Hub search URL for GGUF models matching `query`.
pub fn search_url(query: &str, limit: usize) -> (r: String)
    ensures
        r@ == search_url_spec(query.spec_bytes(), limit as nat),
{
    let mut u = "https://huggingface.co/api/models?search=".to_owned();
    let q = url_encode(query);
    u.append(q.as_str());
    u.append("&filter=gguf&sort=downloads&direction=-1&limit=");
    let l = decimal_string(limit as u64);
    u.append(l.as_str());
    u
}


/// Names the instant that `chrono::DateTime::parse_from_rfc3339` reads in
/// a text, in milliseconds since the Unix epoch, or nothing when the text
/// is not an RFC 3339 timestamp.
pub uninterp spec fn rfc3339_millis(s: Seq<char>) -> Option<i64>;

/// `chrono::DateTime::parse_from_rfc3339`, then `timestamp_millis`.
#[verifier::external_body]
fn parse_rfc3339_millis(s: &str) -> (r: Option<i64>)
    ensures
        r == rfc3339_millis(s@),
{
    match chrono::DateTime::parse_from_rfc3339(s) {
        Ok(dt) => Some(dt.timestamp_millis()),
        Err(_) => None,
    }
}

/// A HuggingFace model as the registry describes it.
#[derive(Clone, Debug)]
pub struct HfModelInfo {
    /// The model name, lower-cased, spaces turned into hyphens.
    pub id: String,
    /// The repository's model name (after the owner).
    pub name: String,
    /// Parameter count in tenths of a billion (0 when unknown).
    pub params_tenths: u32,
    pub category: ModelCategory,
    /// The repository id.
    pub repo_id: String,
    pub tags: Vec<String>,
    pub downloads: Option<u64>,
    pub likes: Option<u64>,
    /// Last modification, in milliseconds since the Unix epoch.
    pub last_modified_ms: Option<i64>,
}

/// The repository id of an API answer: its `id`, else its `modelId`, else
/// `unknown-model`.
pub open spec fn raw_repo_id(id: Option<Seq<char>>, model_id: Option<Seq<char>>) -> Seq<char> {
    match id {
        Some(i) => i,
        None => match model_id {
            Some(m) => m,
            None => "unknown-model"@,
        },
    }
}

/// Describe a HuggingFace API answer: the repository id, the model name
/// after the owner, the local id (lower-cased, spaces to hyphens), the
/// parameter count and category read from the name and tags, and the
/// counters and modification time.
pub fn hf_to_metadata(
    id: Option<String>,
    model_id: Option<String>,
    tags: Option<Vec<String>>,
    downloads: Option<u64>,
    likes: Option<u64>,
    last_modified: Option<String>,
) -> (r: HfModelInfo)
    ensures
        r.repo_id@ == raw_repo_id(
            match id {
                Some(i) => Some(i@),
                None => None,
            },
            match model_id {
                Some(m) => Some(m@),
                None => None,
            },
        ),
        r.name@ == repo_model_name(r.repo_id@),
        r.id@ == replace_char(lowercased(r.name@), ' ', '-'),
        r.tags@ == (match tags {
            Some(t) => t@,
            None => Seq::<String>::empty(),
        }),
        r.params_tenths == (match param_size_in(lowercased(r.name@)) {
            Some(s) => s,
            None => first_tag_param_count(r.tags@.map_values(|t: String| lowercased(t@))),
        }),
        r.category == category_of_tags(r.tags@.map_values(|t: String| lowercased(t@))),
        r.downloads == downloads,
        r.likes == likes,
        r.last_modified_ms == (match last_modified {
            Some(s) => rfc3339_millis(s@),
            None => None,
        }),
{
    let raw_id = match id {
        Some(i) => i,
        None => match model_id {
            Some(m) => m,
            None => "unknown-model".to_owned(),
        },
    };
    let name = model_name_from_repo(raw_id.as_str());
    let tags: Vec<String> = match tags {
        Some(t) => t,
        None => Vec::new(),
    };
    let params = param_count_tenths(name.as_str(), tags.as_slice());
    let category = guess_category(tags.as_slice());
    let lower = to_lowercase(name.as_str());
    let lc = chars_of(lower.as_str());
    let idc = replace_char_chars(&lc, ' ', '-');
    let local_id = string_of(&idc);
    let last_modified_ms = match last_modified {
        Some(s) => parse_rfc3339_millis(s.as_str()),
        None => None,
    };
    HfModelInfo {
        id: local_id,
        name,
        params_tenths: params,
        category,
        repo_id: raw_id,
        tags,
        downloads,
        likes,
        last_modified_ms,
    }
}

/// How the answer to a HuggingFace search is judged: rate limiting and any
/// other failure are errors.
pub fn hf_search_status(status: u16) -> (r: Result<(), RegistryError>)
    requires
        100 <= status <= 999,
    ensures
        status == 429 ==> (r matches Err(RegistryError::HuggingFaceError(m)) && m@
            == "Rate limited by HuggingFace API. Set HF_TOKEN for higher limits."@),
        status != 429 && !(200 <= status < 300) ==> (r matches Err(
            RegistryError::HuggingFaceError(m),
        ) && m@ == "HTTP "@ + decimal(status as nat) + " "@ + status_reason(status)),
        200 <= status < 300 ==> r is Ok,
{
    if status == 429 {
        return Err(
            RegistryError::HuggingFaceError(
                "Rate limited by HuggingFace API. Set HF_TOKEN for higher limits.".to_owned(),
            ),
        );
    }
    if !(200 <= status && status < 300) {
        let mut m = "HTTP ".to_owned();
        let s = status_display(status);
        m.append(s.as_str());
        return Err(RegistryError::HuggingFaceError(m));
    }
    Ok(())
}

/// How the answer to a model lookup is judged: 404 means there is no such
/// model (`Ok(false)`), any other failure is an error.
pub fn hf_get_status(status: u16) -> (r: Result<bool, RegistryError>)
    requires
        100 <= status <= 999,
    ensures
        status == 404 ==> r == Ok::<bool, RegistryError>(false),
        status != 404 && !(200 <= status < 300) ==> (r matches Err(
            RegistryError::HuggingFaceError(m),
        ) && m@ == "HTTP "@ + decimal(status as nat) + " "@ + status_reason(status)),
        200 <= status < 300 ==> r == Ok::<bool, RegistryError>(true),
{
    if status == 404 {
        return Ok(false);
    }
    if !(200 <= status && status < 300) {
        let mut m = "HTTP ".to_owned();
        let s = status_display(status);
        m.append(s.as_str());
        return Err(RegistryError::HuggingFaceError(m));
    }
    Ok(true)
}

/// How the answer to a file listing is judged: any failure is an error
/// naming the repository.
pub fn hf_list_status(status: u16, repo_id: &str) -> (r: Result<(), RegistryError>)
    requires
        100 <= status <= 999,
    ensures
        !(200 <= status < 300) ==> (r matches Err(RegistryError::HuggingFaceError(m)) && m@
            == "HTTP "@ + decimal(status as nat) + " "@ + status_reason(status) + " for "@
            + repo_id@),
        200 <= status < 300 ==> r is Ok,
{
    if !(200 <= status && status < 300) {
        let mut m = "HTTP ".to_owned();
        let s = status_display(status);
        m.append(s.as_str());
        m.append(" for ");
        m.append(repo_id);
        return Err(RegistryError::HuggingFaceError(m));
    }
    Ok(())
}

} // verus!
