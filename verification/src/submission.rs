//! The rules that a submitted strategy's source has to meet, on the items
//! that the source was found to hold.

use vstd::prelude::*;

verus! {

/// Whether `c` is white space: one of the 25 characters that Unicode gives
/// the property `White_Space`.
pub open spec fn is_white_space(c: char) -> bool {
    let n = c as u32;
    ||| 0x09 <= n <= 0x0D
    ||| n == 0x20
    ||| n == 0x85
    ||| n == 0xA0
    ||| n == 0x1680
    ||| 0x2000 <= n <= 0x200A
    ||| n == 0x2028
    ||| n == 0x2029
    ||| n == 0x202F
    ||| n == 0x205F
    ||| n == 0x3000
}

/// Whether a text holds nothing but white space.
pub open spec fn blank(text: Seq<char>) -> bool {
    forall|i: int| 0 <= i < text.len() ==> is_white_space(#[trigger] text[i])
}

/// Whether `c` is white space.
pub fn white_space(c: char) -> (white: bool)
    ensures
        white == is_white_space(c),
{
    let n: u32 = c as u32;
    (0x09 <= n && n <= 0x0D) || n == 0x20 || n == 0x85 || n == 0xA0 || n == 0x1680 || (0x2000 <= n
        && n <= 0x200A) || n == 0x2028 || n == 0x2029 || n == 0x202F || n == 0x205F || n == 0x3000
}

/// Whether `text` holds nothing but white space.
pub fn is_blank(text: &str) -> (b: bool)
    ensures
        b == blank(text@),
{
    let mut b: bool = true;
    for c in iter: text.chars()
        invariant
            iter.seq() == text@,
            b <==> (forall|i: int| 0 <= i < iter.index() ==> is_white_space(#[trigger] text@[i])),
    {
        b = b && white_space(c);
    }
    b
}

/// One item at the top level of a strategy's source, as far as the rules
/// look at it.
pub enum SourceItem {
    /// A constant. `text` holds its value where the constant is a `&str`
    /// set to a string literal, and nothing where it is anything else.
    Const { name: String, text: Option<String> },
    /// A function.
    Function { name: String },
    /// Any other item.
    Other,
}

/// Which of the two entry points a strategy's source defines.
#[derive(Clone, Copy, Debug, PartialEq, Eq)]
pub struct SourceAnalysis {
    /// Whether there is a function `compute_swap`.
    pub has_compute_swap: bool,
    /// Whether there is a function `after_swap`.
    pub has_after_swap: bool,
}

/// What a strategy says of itself.
#[derive(Clone, Debug, PartialEq, Eq)]
pub struct SubmissionMetadata {
    /// The strategy's name.
    pub name: String,
    /// The model that wrote it, or `None` for a human.
    pub model_used: String,
}

/// Why a strategy's metadata was refused.
#[derive(Clone, Copy, Debug, PartialEq, Eq)]
pub enum MetadataError {
    /// There is no constant `NAME` set to a string literal.
    MissingName,
    /// `NAME` holds nothing but white space.
    EmptyName,
    /// There is no constant `MODEL_USED` set to a string literal.
    MissingModelUsed,
    /// `MODEL_USED` holds nothing but white space.
    EmptyModelUsed,
    /// There is no function `get_model_used`.
    MissingGetModelUsed,
}

/// Whether `item` is a function called `name`.
pub open spec fn is_function(item: SourceItem, name: Seq<char>) -> bool {
    match item {
        SourceItem::Function { name: n } => n@ == name,
        _ => false,
    }
}

/// Whether the items hold a function called `name`.
pub open spec fn defines_function(items: Seq<SourceItem>, name: Seq<char>) -> bool {
    exists|i: int| 0 <= i < items.len() && is_function(#[trigger] items[i], name)
}

/// The text of the last constant called `name`: nothing where there is no
/// such constant, or where the last one is not a `&str` set to a string
/// literal.
pub open spec fn constant_text(items: Seq<SourceItem>, name: Seq<char>) -> Option<Seq<char>>
    decreases items.len(),
{
    if items.len() == 0 {
        None
    } else {
        match items.last() {
            SourceItem::Const { name: n, text } if n@ == name => match text {
                Some(t) => Some(t@),
                None => None,
            },
            _ => constant_text(items.drop_last(), name),
        }
    }
}

/// Whether `a` and `b` hold the same text.
fn same_text(a: &String, b: &str) -> (same: bool)
    ensures
        same == (a@ == b@),
{
    let owned = b.to_owned();
    *a == owned
}

/// Finds out which entry points the source defines.
pub fn analyze_source(items: &[SourceItem]) -> (analysis: SourceAnalysis)
    ensures
        analysis.has_compute_swap == defines_function(items@, "compute_swap"@),
        analysis.has_after_swap == defines_function(items@, "after_swap"@),
{
    let mut has_compute_swap: bool = false;
    let mut has_after_swap: bool = false;
    let n: usize = items.len();
    let mut i: usize = 0;
    while i < n
        invariant
            i <= n,
            n == items@.len(),
            has_compute_swap == defines_function(items@.take(i as int), "compute_swap"@),
            has_after_swap == defines_function(items@.take(i as int), "after_swap"@),
        decreases n - i,
    {
        proof {
            lemma_defines_function_step(items@, i as int, "compute_swap"@);
            lemma_defines_function_step(items@, i as int, "after_swap"@);
            reveal_strlit("compute_swap");
            reveal_strlit("after_swap");
            assert("compute_swap"@.len() == 12 && "after_swap"@.len() == 10);
        }
        match &items[i] {
            SourceItem::Function { name } => {
                if same_text(name, "compute_swap") {
                    has_compute_swap = true;
                } else if same_text(name, "after_swap") {
                    has_after_swap = true;
                }
            },
            _ => {},
        }
        i += 1;
    }
    assert(items@.take(n as int) =~= items@);
    SourceAnalysis { has_compute_swap, has_after_swap }
}

/// One more item is looked at: a function is found among the first `i + 1`
/// items when it was found among the first `i` or is item `i`.
proof fn lemma_defines_function_step(items: Seq<SourceItem>, i: int, name: Seq<char>)
    requires
        0 <= i < items.len(),
    ensures
        defines_function(items.take(i + 1), name) == (defines_function(items.take(i), name)
            || is_function(items[i], name)),
{
    let shorter = items.take(i);
    let longer = items.take(i + 1);
    if defines_function(longer, name) {
        let k = choose|k: int| 0 <= k < longer.len() && is_function(#[trigger] longer[k], name);
        if k < i {
            assert(is_function(shorter[k], name));
        }
    }
    if defines_function(shorter, name) {
        let k = choose|k: int| 0 <= k < shorter.len() && is_function(#[trigger] shorter[k], name);
        assert(is_function(longer[k], name));
    }
    if is_function(items[i], name) {
        assert(is_function(longer[i], name));
    }
}

/// Whether the source holds the keyword `unsafe` among its identifiers.
pub fn source_contains_unsafe_keyword(identifiers: &[String]) -> (found: bool)
    ensures
        found == exists|i: int|
            0 <= i < identifiers@.len() && (#[trigger] identifiers@[i])@ == "unsafe"@,
{
    let n: usize = identifiers.len();
    let mut i: usize = 0;
    while i < n
        invariant
            i <= n,
            n == identifiers@.len(),
            forall|j: int| 0 <= j < i ==> (#[trigger] identifiers@[j])@ != "unsafe"@,
        decreases n - i,
    {
        if same_text(&identifiers[i], "unsafe") {
            return true;
        }
        i += 1;
    }
    false
}

/// What the metadata rules make of the items: the first rule that the
/// items break, or the metadata where they break none.
pub open spec fn metadata_verdict(items: Seq<SourceItem>) -> Result<
    (Seq<char>, Seq<char>),
    MetadataError,
> {
    let name = constant_text(items, "NAME"@);
    let model_used = constant_text(items, "MODEL_USED"@);
    if name is None {
        Err(MetadataError::MissingName)
    } else if blank(name->0) {
        Err(MetadataError::EmptyName)
    } else if model_used is None {
        Err(MetadataError::MissingModelUsed)
    } else if blank(model_used->0) {
        Err(MetadataError::EmptyModelUsed)
    } else if !defines_function(items, "get_model_used"@) {
        Err(MetadataError::MissingGetModelUsed)
    } else {
        Ok((name->0, model_used->0))
    }
}

/// Checks what a strategy says of itself. Its source must set the
/// constants `NAME` and `MODEL_USED` to string literals that hold more than
/// white space, and define a function `get_model_used`. Of several
/// constants of one name the last counts.
pub fn validate_submission_metadata(items: &[SourceItem]) -> (result: Result<
    SubmissionMetadata,
    MetadataError,
>)
    ensures
        match result {
            Ok(metadata) => metadata_verdict(items@) == Ok::<
                (Seq<char>, Seq<char>),
                MetadataError,
            >((metadata.name@, metadata.model_used@)),
            Err(error) => metadata_verdict(items@) == Err::<
                (Seq<char>, Seq<char>),
                MetadataError,
            >(error),
        },
{
    let mut name: Option<String> = None;
    let mut model_used: Option<String> = None;
    let mut has_get_model_used: bool = false;
    let n: usize = items.len();
    let mut i: usize = 0;
    while i < n
        invariant
            i <= n,
            n == items@.len(),
            text_view(name) == constant_text(items@.take(i as int), "NAME"@),
            text_view(model_used) == constant_text(items@.take(i as int), "MODEL_USED"@),
            has_get_model_used == defines_function(items@.take(i as int), "get_model_used"@),
        decreases n - i,
    {
        proof {
            lemma_defines_function_step(items@, i as int, "get_model_used"@);
            let longer = items@.take(i + 1);
            assert(longer.drop_last() =~= items@.take(i as int));
            assert(longer.last() == items@[i as int]);
            reveal_strlit("NAME");
            reveal_strlit("MODEL_USED");
            assert("NAME"@.len() == 4 && "MODEL_USED"@.len() == 10);
        }
        match &items[i] {
            SourceItem::Const { name: ident, text } => {
                if same_text(ident, "NAME") {
                    name = copy_text(text);
                } else if same_text(ident, "MODEL_USED") {
                    model_used = copy_text(text);
                }
            },
            SourceItem::Function { name: ident } => {
                if same_text(ident, "get_model_used") {
                    has_get_model_used = true;
                }
            },
            SourceItem::Other => {},
        }
        i += 1;
    }
    assert(items@.take(n as int) =~= items@);
    let name: String = match name {
        Some(name) => name,
        None => {
            return Err(MetadataError::MissingName);
        },
    };
    if is_blank(name.as_str()) {
        return Err(MetadataError::EmptyName);
    }
    let model_used: String = match model_used {
        Some(model_used) => model_used,
        None => {
            return Err(MetadataError::MissingModelUsed);
        },
    };
    if is_blank(model_used.as_str()) {
        return Err(MetadataError::EmptyModelUsed);
    }
    if !has_get_model_used {
        return Err(MetadataError::MissingGetModelUsed);
    }
    Ok(SubmissionMetadata { name, model_used })
}

/// The characters of a text that may be missing.
spec fn text_view(text: Option<String>) -> Option<Seq<char>> {
    match text {
        Some(t) => Some(t@),
        None => None,
    }
}

/// A copy of a text that may be missing.
fn copy_text(text: &Option<String>) -> (copy: Option<String>)
    ensures
        text_view(copy) == text_view(*text),
{
    match text {
        Some(t) => Some(t.clone()),
        None => None,
    }
}

} // verus!
