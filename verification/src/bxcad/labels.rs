//! Labels for the animations of a BRCAD.
//!
//! A BRCAD holds no names. They come from a text of `#define` lines, one for
//! each animation, which gives the animation's name and its index:
//!
//! ```text
//! #define NAME 3 // a comment
//! ```
//!
//! The text is read line by line. A line ends where `//` starts a comment,
//! and a tab counts as a space. A line that starts with `#define` and a space
//! has to give a name and an index; what follows the index is left unread.
//! Every other line is skipped.
use vstd::prelude::*;
use vstd::string::*;
use crate::bxcad::brcad::AnimationModel;
use crate::bxcad::brcad::BrcadModel;
use crate::bxcad::brcad::BRCAD;
use crate::error::Error;

verus! {

/// Whether a character is white space, as Unicode has it.
pub open spec fn is_whitespace(c: char) -> bool {
    let n = c as u32;
    (0x09 <= n <= 0x0d) || n == 0x20 || n == 0x85 || n == 0xa0 || n == 0x1680 || (0x2000 <= n
        <= 0x200a) || n == 0x2028 || n == 0x2029 || n == 0x202f || n == 0x205f || n == 0x3000
}

/// Whether a character counts as a space: a space or a tab.
pub open spec fn is_blank(c: char) -> bool {
    c == ' ' || c == '\t'
}

/// Whether a character is a decimal digit.
pub open spec fn is_digit(c: char) -> bool {
    '0' <= c <= '9'
}

/// The first index from `lo` on at which `s` has a line feed, or the length
/// of `s`.
pub open spec fn find_newline(s: Seq<char>, lo: int) -> int
    decreases s.len() - lo,
{
    if lo >= s.len() {
        s.len() as int
    } else if s[lo] == '\n' {
        lo
    } else {
        find_newline(s, lo + 1)
    }
}

/// The first index in `lo..hi` at which `//` starts in `s` before `hi`, or
/// `hi`.
pub open spec fn find_comment(s: Seq<char>, lo: int, hi: int) -> int
    decreases hi - lo,
{
    if lo + 1 >= hi {
        hi
    } else if s[lo] == '/' && s[lo + 1] == '/' {
        lo
    } else {
        find_comment(s, lo + 1, hi)
    }
}

/// The first index in `lo..hi` at which `s` has a space or a tab, or `hi`.
pub open spec fn find_blank(s: Seq<char>, lo: int, hi: int) -> int
    decreases hi - lo,
{
    if lo >= hi {
        hi
    } else if is_blank(s[lo]) {
        lo
    } else {
        find_blank(s, lo + 1, hi)
    }
}

/// The first index in `lo..hi` at which `s` has no white space, or `hi`.
pub open spec fn skip_whitespace(s: Seq<char>, lo: int, hi: int) -> int
    decreases hi - lo,
{
    if lo >= hi {
        hi
    } else if !is_whitespace(s[lo]) {
        lo
    } else {
        skip_whitespace(s, lo + 1, hi)
    }
}

/// The index behind the last character of `s` in `lo..hi` that is no white
/// space, or `lo`.
pub open spec fn trim_end(s: Seq<char>, lo: int, hi: int) -> int
    decreases hi - lo,
{
    if lo >= hi {
        lo
    } else if !is_whitespace(s[hi - 1]) {
        hi
    } else {
        trim_end(s, lo, hi - 1)
    }
}

/// Whether `s` has `#define` and a space or a tab from `lo` on, before `hi`.
pub open spec fn starts_define(s: Seq<char>, lo: int, hi: int) -> bool {
    &&& lo + 8 <= hi
    &&& s[lo] == '#'
    &&& s[lo + 1] == 'd'
    &&& s[lo + 2] == 'e'
    &&& s[lo + 3] == 'f'
    &&& s[lo + 4] == 'i'
    &&& s[lo + 5] == 'n'
    &&& s[lo + 6] == 'e'
    &&& is_blank(s[lo + 7])
}

/// The number that the decimal digits of `s` in `lo..hi` denote; there is
/// none where a character is no digit.
pub open spec fn digits_value(s: Seq<char>, lo: int, hi: int) -> Option<nat>
    decreases hi - lo,
{
    if lo >= hi {
        Some(0)
    } else {
        match digits_value(s, lo, hi - 1) {
            None => None,
            Some(value) => if is_digit(s[hi - 1]) {
                Some((value * 10 + (s[hi - 1] as u32 - '0' as u32)) as nat)
            } else {
                None
            },
        }
    }
}

/// The number that `s` denotes in `lo..hi`: decimal digits, at least one,
/// which a plus sign may precede.
pub open spec fn number(s: Seq<char>, lo: int, hi: int) -> Option<nat> {
    let from = if lo < hi && s[lo] == '+' {
        lo + 1
    } else {
        lo
    };
    if from >= hi {
        None
    } else {
        digits_value(s, from, hi)
    }
}

/// The next line feed stands at or behind the place from which it is looked
/// for, and within the text.
pub proof fn lemma_find_newline_bounds(s: Seq<char>, lo: int)
    requires
        0 <= lo <= s.len(),
    ensures
        lo <= find_newline(s, lo) <= s.len(),
    decreases s.len() - lo,
{
    if lo < s.len() && s[lo] != '\n' {
        lemma_find_newline_bounds(s, lo + 1);
    }
}

/// What a line says.
pub enum Entry {
    /// Nothing: the line is no definition.
    Plain,
    /// The line starts a definition and is not one.
    Malformed,
    /// The animation at `index` has the name that stands in `from..to` of the
    /// text.
    Label { index: nat, from: int, to: int },
}

/// What the line says that stands in `lo..hi` of `s`.
///
/// The line ends where a comment starts. Behind `#define` and a space
/// follow, with white space around them, the name, which ends at the next
/// space, and the index, which ends at the next space or with the line.
pub open spec fn entry(s: Seq<char>, lo: int, hi: int) -> Entry {
    let end = find_comment(s, lo, hi);
    if !starts_define(s, lo, end) {
        Entry::Plain
    } else {
        let from = skip_whitespace(s, lo + 8, end);
        let rest_to = trim_end(s, from, end);
        let to = find_blank(s, from, rest_to);
        if to >= rest_to {
            Entry::Malformed
        } else {
            let token_from = skip_whitespace(s, to + 1, rest_to);
            let token_to = find_blank(s, token_from, rest_to);
            match number(s, token_from, token_to) {
                None => Entry::Malformed,
                Some(index) => Entry::Label { index, from, to },
            }
        }
    }
}

/// Where the line that starts at `lo` of `s` ends: before the line feed, and
/// before a carriage return that stands right before the line feed; with the
/// text where no line feed follows.
pub open spec fn line_end(s: Seq<char>, lo: int) -> int {
    let feed = find_newline(s, lo);
    if feed < s.len() && lo < feed && s[feed - 1] == '\r' {
        feed - 1
    } else {
        feed
    }
}

/// The labels that the lines of `s` from `lo` on give to `count` animations,
/// in the order of the lines: each an index and a name. There are none where
/// a line is malformed or gives an index that no animation has.
pub open spec fn labels_of(s: Seq<char>, lo: int, count: nat) -> Option<Seq<(nat, Seq<char>)>>
    decreases s.len() - lo,
    via labels_of_decreases
{
    if lo >= s.len() || lo < 0 {
        Some(Seq::empty())
    } else {
        let feed = find_newline(s, lo);
        let rest = if feed < s.len() {
            labels_of(s, feed + 1, count)
        } else {
            Some(Seq::empty())
        };
        match entry(s, lo, line_end(s, lo)) {
            Entry::Plain => rest,
            Entry::Malformed => None,
            Entry::Label { index, from, to } => if index < count {
                match rest {
                    None => None,
                    Some(rest) => Some(seq![(index, s.subrange(from, to))] + rest),
                }
            } else {
                None
            },
        }
    }
}

#[via_fn]
proof fn labels_of_decreases(s: Seq<char>, lo: int, count: nat) {
    if 0 <= lo < s.len() {
        lemma_find_newline_bounds(s, lo);
    }
}

/// The animations with the names that the labels give them, the later label
/// first where two name the same animation.
pub open spec fn named(animations: Seq<AnimationModel>, labels: Seq<(nat, Seq<char>)>) -> Seq<
    AnimationModel,
>
    decreases labels.len(),
{
    if labels.len() == 0 {
        animations
    } else {
        let (index, name) = labels.last();
        let before = named(animations, labels.drop_last());
        if index < before.len() {
            before.update(
                index as int,
                AnimationModel {
                    name: Some(name),
                    unk: before[index as int].unk,
                    steps: before[index as int].steps,
                },
            )
        } else {
            before
        }
    }
}

/// The document with other animations.
pub open spec fn with_animations(value: BrcadModel, animations: Seq<AnimationModel>) -> BrcadModel {
    BrcadModel {
        timestamp: value.timestamp,
        unk0: value.unk0,
        spritesheet_num: value.spritesheet_num,
        spritesheet_control: value.spritesheet_control,
        texture_width: value.texture_width,
        texture_height: value.texture_height,
        unk1: value.unk1,
        sprites: value.sprites,
        unk2: value.unk2,
        animations,
    }
}

/// What applying the labels of a text does to a document: it gives the names
/// to the animations, or fails and leaves the document as it is.
pub open spec fn labels_applied(
    before: BrcadModel,
    after: BrcadModel,
    r: Result<(), Error>,
    text: Seq<char>,
) -> bool {
    match labels_of(text, 0, before.animations.len()) {
        Some(labels) => r is Ok && after == with_animations(
            before,
            named(before.animations, labels),
        ),
        None => r is Err && r->Err_0 is BadLabelsFile && after == before,
    }
}

/// What encoding_rs makes of bytes that it decodes as Shift-JIS: the text,
/// in which a replacement character stands for each malformed sequence, and
/// whether there was such a sequence.
pub uninterp spec fn shift_jis_decoded(bytes: Seq<u8>) -> (Seq<char>, bool);

/// Decodes `bytes` as Shift-JIS with `Encoding::decode` of encoding_rs, on
/// its constant `SHIFT_JIS`. The text and the flag depend on the bytes alone
/// and go by the name `shift_jis_decoded`. The call sizes its buffer at
/// about three times the length of the bytes, rounded up to a power of two,
/// and that size has to fit a `usize`.
#[verifier::external_body]
fn decode_shift_jis(bytes: &[u8]) -> (r: (String, bool))
    requires
        bytes@.len() <= usize::MAX / 8,
    ensures
        (r.0@, r.1) == shift_jis_decoded(bytes@),
{
    let (text, _, had_errors) = encoding_rs::SHIFT_JIS.decode(bytes);
    (text.into_owned(), had_errors)
}

/// The characters of a text.
pub fn chars_of(text: &str) -> (r: Vec<char>)
    ensures
        r@ == text@,
{
    let mut out: Vec<char> = Vec::new();
    for c in it: text.chars()
        invariant
            out@ == it.seq().take(it.index()),
            it.seq() == text@,
    {
        out.push(c);
    }
    out
}

/// Tells whether a character is white space.
fn whitespace(c: char) -> (r: bool)
    ensures
        r == is_whitespace(c),
{
    let n = c as u32;
    (0x09 <= n && n <= 0x0d) || n == 0x20 || n == 0x85 || n == 0xa0 || n == 0x1680 || (0x2000 <= n
        && n <= 0x200a) || n == 0x2028 || n == 0x2029 || n == 0x202f || n == 0x205f || n == 0x3000
}

/// Tells whether a character counts as a space.
fn blank(c: char) -> (r: bool)
    ensures
        r == is_blank(c),
{
    c == ' ' || c == '\t'
}

/// Finds the next line feed.
fn next_newline(s: &Vec<char>, lo: usize) -> (r: usize)
    requires
        lo <= s@.len(),
    ensures
        r == find_newline(s@, lo as int),
        lo <= r <= s@.len(),
{
    let mut i = lo;
    while i < s.len() && s[i] != '\n'
        invariant
            lo <= i <= s@.len(),
            find_newline(s@, lo as int) == find_newline(s@, i as int),
        decreases s@.len() - i,
    {
        i = i + 1;
    }
    i
}

/// Finds where a comment starts.
fn next_comment(s: &Vec<char>, lo: usize, hi: usize) -> (r: usize)
    requires
        lo <= hi <= s@.len(),
    ensures
        r == find_comment(s@, lo as int, hi as int),
        lo <= r <= hi,
{
    let mut i = lo;
    while hi - i >= 2 && !(s[i] == '/' && s[i + 1] == '/')
        invariant
            lo <= i <= hi <= s@.len(),
            find_comment(s@, lo as int, hi as int) == find_comment(s@, i as int, hi as int),
        decreases hi - i,
    {
        i = i + 1;
    }
    if hi - i >= 2 {
        i
    } else {
        hi
    }
}

/// Finds the next space or tab.
fn next_blank(s: &Vec<char>, lo: usize, hi: usize) -> (r: usize)
    requires
        lo <= hi <= s@.len(),
    ensures
        r == find_blank(s@, lo as int, hi as int),
        lo <= r <= hi,
{
    let mut i = lo;
    while i < hi && !blank(s[i])
        invariant
            lo <= i <= hi <= s@.len(),
            find_blank(s@, lo as int, hi as int) == find_blank(s@, i as int, hi as int),
        decreases hi - i,
    {
        i = i + 1;
    }
    i
}

/// Finds the next character that is no white space.
fn after_whitespace(s: &Vec<char>, lo: usize, hi: usize) -> (r: usize)
    requires
        lo <= hi <= s@.len(),
    ensures
        r == skip_whitespace(s@, lo as int, hi as int),
        lo <= r <= hi,
{
    let mut i = lo;
    while i < hi && whitespace(s[i])
        invariant
            lo <= i <= hi <= s@.len(),
            skip_whitespace(s@, lo as int, hi as int) == skip_whitespace(s@, i as int, hi as int),
        decreases hi - i,
    {
        i = i + 1;
    }
    i
}

/// Finds where the white space starts that ends a range.
fn before_whitespace(s: &Vec<char>, lo: usize, hi: usize) -> (r: usize)
    requires
        lo <= hi <= s@.len(),
    ensures
        r == trim_end(s@, lo as int, hi as int),
        lo <= r <= hi,
{
    let mut i = hi;
    while lo < i && whitespace(s[i - 1])
        invariant
            lo <= i <= hi <= s@.len(),
            trim_end(s@, lo as int, hi as int) == trim_end(s@, lo as int, i as int),
        decreases i - lo,
    {
        i = i - 1;
    }
    i
}

/// Tells whether a line starts a definition.
fn define_at(s: &Vec<char>, lo: usize, hi: usize) -> (r: bool)
    requires
        lo <= hi <= s@.len(),
    ensures
        r == starts_define(s@, lo as int, hi as int),
{
    hi - lo >= 8 && s[lo] == '#' && s[lo + 1] == 'd' && s[lo + 2] == 'e' && s[lo + 3] == 'f' && s[lo
        + 4] == 'i' && s[lo + 5] == 'n' && s[lo + 6] == 'e' && blank(s[lo + 7])
}

/// Reads a number. One that does not fit is read as the highest number that
/// does.
fn read_number(s: &Vec<char>, lo: usize, hi: usize) -> (r: Option<usize>)
    requires
        lo <= hi <= s@.len(),
    ensures
        match number(s@, lo as int, hi as int) {
            None => r is None,
            Some(value) => r == Some(
                if value <= usize::MAX {
                    value as usize
                } else {
                    usize::MAX
                },
            ),
        },
{
    let from = if lo < hi && s[lo] == '+' {
        lo + 1
    } else {
        lo
    };
    if from >= hi {
        return None;
    }
    let mut value: usize = 0;
    let mut i = from;
    while i < hi
        invariant
            from == (if lo < hi && s@[lo as int] == '+' {
                lo + 1
            } else {
                lo as int
            }),
            from <= i <= hi <= s@.len(),
            from < hi,
            match digits_value(s@, from as int, i as int) {
                None => false,
                Some(seen) => value == if seen <= usize::MAX {
                    seen as usize
                } else {
                    usize::MAX
                },
            },
        decreases hi - i,
    {
        let c = s[i];
        if !('0' <= c && c <= '9') {
            proof {
                assert(digits_value(s@, from as int, i + 1) is None);
                lemma_digits_fail(s@, from as int, i + 1, hi as int);
            }
            return None;
        }
        let d = (c as u32 - '0' as u32) as usize;
        value = if value > (usize::MAX - d) / 10 {
            usize::MAX
        } else {
            value * 10 + d
        };
        i = i + 1;
    }
    Some(value)
}

/// Digits that denote no number denote none when more characters follow.
proof fn lemma_digits_fail(s: Seq<char>, lo: int, mid: int, hi: int)
    requires
        lo <= mid <= hi,
        digits_value(s, lo, mid) is None,
    ensures
        digits_value(s, lo, hi) is None,
    decreases hi - mid,
{
    if mid < hi {
        lemma_digits_fail(s, lo, mid, hi - 1);
    }
}

/// What a line says, for the reader of the text: the name's place is held in
/// machine numbers.
enum Line {
    Plain,
    Malformed,
    Label { index: usize, from: usize, to: usize },
}

/// Reads the line in `lo..hi`.
fn read_line(s: &Vec<char>, lo: usize, hi: usize) -> (r: Line)
    requires
        lo <= hi <= s@.len(),
    ensures
        match entry(s@, lo as int, hi as int) {
            Entry::Plain => r is Plain,
            Entry::Malformed => r is Malformed,
            Entry::Label { index, from, to } => r matches Line::Label {
                index: read,
                from: name_from,
                to: name_to,
            } && read == (if index <= usize::MAX {
                index as usize
            } else {
                usize::MAX
            }) && name_from == from && name_to == to && lo <= from <= to <= hi,
        },
{
    let end = next_comment(s, lo, hi);
    if !define_at(s, lo, end) {
        return Line::Plain;
    }
    let from = after_whitespace(s, lo + 8, end);
    let rest_to = before_whitespace(s, from, end);
    let to = next_blank(s, from, rest_to);
    if to >= rest_to {
        return Line::Malformed;
    }
    let token_from = after_whitespace(s, to + 1, rest_to);
    let token_to = next_blank(s, token_from, rest_to);
    match read_number(s, token_from, token_to) {
        None => Line::Malformed,
        Some(index) => Line::Label { index, from, to },
    }
}

impl BRCAD {
    /// Gives the animations the names of the labels of `text`. Where a line
    /// of the text is malformed or names an animation that the document does
    /// not have, the document stays as it is.
    pub fn apply_label_text(&mut self, text: &str) -> (r: Result<(), Error>)
        ensures
            labels_applied(old(self)@, final(self)@, r, text@),
    {
        let chars = chars_of(text);
        let count = self.animations.len();
        let ghost all = labels_of(chars@, 0, count as nat);
        let mut found: Vec<(usize, String)> = Vec::new();
        let mut lo: usize = 0;
        while lo < chars.len()
            invariant
                chars@ == text@,
                count == self.animations@.len(),
                *self == *old(self),
                all == labels_of(chars@, 0, count as nat),
                lo <= chars@.len(),
                forall|k: int| 0 <= k < found@.len() ==> (#[trigger] found@[k]).0 < count,
                all == match labels_of(chars@, lo as int, count as nat) {
                    None => None,
                    Some(rest) => Some(label_views(found@) + rest),
                },
            decreases chars@.len() - lo,
        {
            let feed = next_newline(&chars, lo);
            let hi = if feed < chars.len() && lo < feed && chars[feed - 1] == '\r' {
                feed - 1
            } else {
                feed
            };
            let ghost before = found@;
            match read_line(&chars, lo, hi) {
                Line::Plain => {},
                Line::Malformed => {
                    return Err(Error::BadLabelsFile);
                },
                Line::Label { index, from, to } => {
                    if index >= count {
                        return Err(Error::BadLabelsFile);
                    }
                    let name = text.substring_char(from, to).to_owned();
                    found.push((index, name));
                    proof {
                        let rest = if feed < chars@.len() {
                            labels_of(chars@, feed + 1, count as nat)
                        } else {
                            Some(Seq::empty())
                        };
                        assert(label_views(found@) =~= label_views(before) + seq![
                            (index as nat, chars@.subrange(from as int, to as int)),
                        ]);
                        if rest is Some {
                            assert(label_views(found@) + rest->Some_0 =~= label_views(before) + (
                            seq![(index as nat, chars@.subrange(from as int, to as int))]
                                + rest->Some_0));
                        }
                    }
                },
            }
            lo = if feed < chars.len() {
                feed + 1
            } else {
                feed
            };
        }
        assert(label_views(found@) + Seq::empty() =~= label_views(found@));
        let mut i: usize = 0;
        assert(label_views(found@).take(0) =~= Seq::empty());
        while i < found.len()
            invariant
                i <= found@.len(),
                count == old(self).animations@.len(),
                forall|k: int| 0 <= k < found@.len() ==> (#[trigger] found@[k]).0 < count,
                self@ == with_animations(
                    old(self)@,
                    named(old(self)@.animations, label_views(found@).take(i as int)),
                ),
                self.animations@.len() == count,
            decreases found@.len() - i,
        {
            let index = found[i].0;
            let name = found[i].1.clone();
            let ghost before = self@.animations;
            proof {
                let upto = label_views(found@).take(i + 1);
                assert(upto.drop_last() =~= label_views(found@).take(i as int));
                assert(upto.last() == (index as nat, name@));
                lemma_named_len(old(self)@.animations, label_views(found@).take(i as int));
            }
            self.animations[index].name = Some(name);
            assert(self@.animations =~= before.update(
                index as int,
                AnimationModel {
                    name: Some(name@),
                    unk: before[index as int].unk,
                    steps: before[index as int].steps,
                },
            ));
            i = i + 1;
        }
        assert(label_views(found@).take(found@.len() as int) =~= label_views(found@));
        Ok(())
    }

    /// Uses the contents of the associated labels file to add names to the
    /// struct. The file has to be Shift-JIS; where it is not, or where its
    /// text is refused, the document stays as it is.
    pub fn apply_labels(&mut self, labels: &[u8]) -> (r: Result<(), Error>)
        requires
            labels@.len() <= usize::MAX / 8,
        ensures
            if shift_jis_decoded(labels@).1 {
                r is Err && r->Err_0 is LabelsFileNotShiftJIS && final(self)@ == old(self)@
            } else {
                labels_applied(old(self)@, final(self)@, r, shift_jis_decoded(labels@).0)
            },
    {
        let (text, errors) = decode_shift_jis(labels);
        if errors {
            return Err(Error::LabelsFileNotShiftJIS);
        }
        self.apply_label_text(text.as_str())
    }
}

/// The labels that were read, as the text has them.
pub open spec fn label_views(found: Seq<(usize, String)>) -> Seq<(nat, Seq<char>)> {
    Seq::new(found.len(), |k: int| (found[k].0 as nat, found[k].1@))
}

/// Names do not change how many animations there are.
pub proof fn lemma_named_len(animations: Seq<AnimationModel>, labels: Seq<(nat, Seq<char>)>)
    ensures
        named(animations, labels).len() == animations.len(),
    decreases labels.len(),
{
    if labels.len() > 0 {
        lemma_named_len(animations, labels.drop_last());
    }
}

} // verus!
