//! Picture mask validator: `#` digit, `@` letter, `!` any character,
//! `*` makes the rest optional, anything else must match literally.
use vstd::prelude::*;
use crate::text::{char_at, is_ascii_alpha, is_ascii_digit, is_whitespace, spec_is_ascii_alpha,
    spec_is_ascii_digit, spec_is_whitespace, str_chars, string_chars, string_from_chars};
use crate::views::validator::Validator;

verus! {

broadcast use vstd::string::group_string_axioms;

/// Validates and formats input according to a picture mask.
pub struct PictureValidator {
    mask: String,
    auto_format: bool,
}

/// Whether a mask character stands for one input character.
pub open spec fn is_field(m: char) -> bool {
    m == '#' || m == '@' || m == '!'
}

/// Whether `c` may stand at a position whose mask character is `m`.
pub open spec fn char_fits(c: char, m: char) -> bool {
    if m == '#' {
        spec_is_ascii_digit(c)
    } else if m == '@' {
        spec_is_ascii_alpha(c)
    } else if m == '!' || m == '*' {
        true
    } else {
        c == m
    }
}

/// The input without whitespace.
pub open spec fn no_space(s: Seq<char>) -> Seq<char> {
    s.filter(|c: char| !spec_is_whitespace(c))
}

/// Formatting from mask position `mi` and input position `ii`: field
/// characters take the next input character when it fits; an unfit one is
/// skipped together with its field, or ends the result in the optional part;
/// running out of input ends the result; literals are copied.
pub open spec fn fmt_from(m: Seq<char>, inp: Seq<char>, mi: int, ii: int, opt: bool) -> Seq<char>
    decreases m.len() - mi,
{
    if mi >= m.len() || mi < 0 {
        seq![]
    } else if m[mi] == '*' {
        fmt_from(m, inp, mi + 1, ii, true)
    } else if is_field(m[mi]) {
        if ii < inp.len() {
            if char_fits(inp[ii], m[mi]) {
                seq![inp[ii]] + fmt_from(m, inp, mi + 1, ii + 1, opt)
            } else if opt {
                seq![]
            } else {
                fmt_from(m, inp, mi + 1, ii + 1, opt)
            }
        } else {
            seq![]
        }
    } else {
        seq![m[mi]] + fmt_from(m, inp, mi + 1, ii, opt)
    }
}

/// The formatted form of `input` under `mask`.
pub open spec fn formatted(mask: Seq<char>, input: Seq<char>) -> Seq<char> {
    fmt_from(mask, no_space(input), 0, 0, false)
}

/// Whether the input from `ii` matches the mask from `mi` exactly; running
/// out of input is accepted once the optional part has begun.
pub open spec fn match_from(m: Seq<char>, inp: Seq<char>, mi: int, ii: int, opt: bool) -> bool
    decreases m.len() - mi,
{
    if mi >= m.len() || mi < 0 {
        ii == inp.len()
    } else if m[mi] == '*' {
        match_from(m, inp, mi + 1, ii, true)
    } else if ii >= inp.len() {
        opt
    } else if is_field(m[mi]) {
        char_fits(inp[ii], m[mi]) && match_from(m, inp, mi + 1, ii + 1, opt)
    } else {
        inp[ii] == m[mi] && match_from(m, inp, mi + 1, ii + 1, opt)
    }
}

/// Whether the input is a prefix-compatible partial entry: every typed
/// character fits the mask position it lines up with.
pub open spec fn partial_from(m: Seq<char>, inp: Seq<char>, mi: int, ii: int) -> bool
    decreases m.len() - mi,
{
    if ii >= inp.len() || mi >= m.len() || mi < 0 || ii < 0 {
        true
    } else if m[mi] == '*' {
        partial_from(m, inp, mi + 1, ii)
    } else if is_field(m[mi]) {
        char_fits(inp[ii], m[mi]) && partial_from(m, inp, mi + 1, ii + 1)
    } else {
        inp[ii] == m[mi] && partial_from(m, inp, mi + 1, ii + 1)
    }
}

fn fits(c: char, m: char) -> (b: bool)
    ensures
        b == char_fits(c, m),
{
    if m == '#' {
        is_ascii_digit(c)
    } else if m == '@' {
        is_ascii_alpha(c)
    } else if m == '!' || m == '*' {
        true
    } else {
        c == m
    }
}

/// The characters of `s` that are not whitespace.
fn strip_spaces(s: &Vec<char>) -> (out: Vec<char>)
    ensures
        out@ == no_space(s@),
{
    let mut out: Vec<char> = Vec::new();
    let mut i: usize = 0;
    while i < s.len()
        invariant
            i <= s@.len(),
            out@ == no_space(s@.take(i as int)),
        decreases s.len() - i,
    {
        let c = char_at(s, i);
        assert(s@.take(i + 1) == s@.take(i as int).push(c));
        proof {
            s@.take(i as int).lemma_filter_push(c, |c: char| !spec_is_whitespace(c));
        }
        if !is_whitespace(c) {
            out.push(c);
        }
        i = i + 1;
    }
    assert(s@.take(s@.len() as int) == s@);
    out
}

impl PictureValidator {
    pub closed spec fn spec_mask(&self) -> Seq<char> {
        self.mask@
    }

    pub closed spec fn spec_auto_format(&self) -> bool {
        self.auto_format
    }

    /// A validator for `mask` that formats as the user types.
    pub fn new(mask: &str) -> (v: Self)
        ensures
            v.spec_mask() == mask@,
            v.spec_auto_format(),
    {
        let chars = str_chars(mask);
        PictureValidator { mask: string_from_chars(&chars), auto_format: true }
    }

    /// A validator for `mask` without formatting.
    pub fn new_no_format(mask: &str) -> (v: Self)
        ensures
            v.spec_mask() == mask@,
            !v.spec_auto_format(),
    {
        let chars = str_chars(mask);
        PictureValidator { mask: string_from_chars(&chars), auto_format: false }
    }

    pub fn mask(&self) -> (m: &str)
        ensures
            m@ == self.spec_mask(),
    {
        self.mask.as_str()
    }

    pub fn set_auto_format(&mut self, auto_format: bool)
        ensures
            final(self).spec_mask() == old(self).spec_mask(),
            final(self).spec_auto_format() == auto_format,
    {
        self.auto_format = auto_format;
    }

    /// `input` laid out on the mask, its whitespace dropped.
    pub fn format(&self, input: &str) -> (s: String)
        ensures
            s@ == formatted(self.spec_mask(), input@),
    {
        let raw = str_chars(input);
        let inp = strip_spaces(&raw);
        let m = string_chars(&self.mask);
        let mut result: Vec<char> = Vec::new();
        let mut mi: usize = 0;
        let mut ii: usize = 0;
        let mut optional = false;
        let mut done = false;
        while mi < m.len() && !done
            invariant
                done ==> fmt_from(m@, inp@, mi as int, ii as int, optional) == Seq::<char>::empty(),
                m@ == self.spec_mask(),
                inp@ == no_space(input@),
                mi <= m@.len(),
                ii <= inp@.len(),
                result@ + fmt_from(m@, inp@, mi as int, ii as int, optional) == formatted(m@, input@),
            decreases m.len() - mi + (if done { 0int } else { 1int }),
        {
            let ghost r0 = result@;
            let mc = char_at(&m, mi);
            if mc == '*' {
                optional = true;
                mi = mi + 1;
            } else if mc == '#' || mc == '@' || mc == '!' {
                if ii < inp.len() {
                    let c = char_at(&inp, ii);
                    if fits(c, mc) {
                        result.push(c);
                        assert(result@ + fmt_from(m@, inp@, mi + 1, ii + 1, optional) =~= r0 + fmt_from(m@, inp@, mi as int, ii as int, optional));
                        mi = mi + 1;
                        ii = ii + 1;
                    } else if optional {
                        done = true;
                    } else {
                        mi = mi + 1;
                        ii = ii + 1;
                    }
                } else {
                    done = true;
                }
            } else {
                result.push(mc);
                assert(result@ + fmt_from(m@, inp@, mi + 1, ii as int, optional) =~= r0 + fmt_from(m@, inp@, mi as int, ii as int, optional));
                mi = mi + 1;
            }
        }
        assert(result@ =~= result@ + fmt_from(m@, inp@, mi as int, ii as int, optional));
        string_from_chars(&result)
    }

    /// Whether `input` matches the mask completely.
    pub fn matches_mask(&self, input: &str) -> (b: bool)
        ensures
            b == match_from(self.spec_mask(), input@, 0, 0, false),
    {
        let m = string_chars(&self.mask);
        let inp = str_chars(input);
        let mut mi: usize = 0;
        let mut ii: usize = 0;
        let mut optional = false;
        while mi < m.len()
            invariant
                m@ == self.spec_mask(),
                inp@ == input@,
                mi <= m@.len(),
                ii <= inp@.len(),
                match_from(m@, inp@, mi as int, ii as int, optional) == match_from(m@, inp@, 0, 0, false),
            decreases m.len() - mi,
        {
            let mc = char_at(&m, mi);
            if mc == '*' {
                optional = true;
                mi = mi + 1;
            } else {
                if ii >= inp.len() {
                    return optional;
                }
                let c = char_at(&inp, ii);
                if mc == '#' || mc == '@' || mc == '!' {
                    if !fits(c, mc) {
                        return false;
                    }
                } else if c != mc {
                    return false;
                }
                ii = ii + 1;
                mi = mi + 1;
            }
        }
        ii == inp.len()
    }

    /// Whether the typed characters so far all fit the mask positions they
    /// line up with.
    pub fn partial_fits(&self, input: &str) -> (b: bool)
        ensures
            b == partial_from(self.spec_mask(), input@, 0, 0),
    {
        let m = string_chars(&self.mask);
        let inp = str_chars(input);
        let mut mi: usize = 0;
        let mut ii: usize = 0;
        while ii < inp.len() && mi < m.len()
            invariant
                m@ == self.spec_mask(),
                inp@ == input@,
                mi <= m@.len(),
                ii <= inp@.len(),
                partial_from(m@, inp@, mi as int, ii as int) == partial_from(m@, inp@, 0, 0),
            decreases m.len() - mi,
        {
            let mc = char_at(&m, mi);
            if mc == '*' {
                mi = mi + 1;
            } else {
                let c = char_at(&inp, ii);
                if mc == '#' || mc == '@' || mc == '!' {
                    if !fits(c, mc) {
                        return false;
                    }
                } else if c != mc {
                    return false;
                }
                ii = ii + 1;
                mi = mi + 1;
            }
        }
        true
    }
}

impl Validator for PictureValidator {
    open spec fn spec_is_valid(&self, input: Seq<char>) -> bool {
        input.len() == 0 || match_from(self.spec_mask(), input, 0, 0, false)
    }

    open spec fn spec_is_valid_input(&self, input: Seq<char>, append: bool) -> bool {
        if input.len() == 0 {
            true
        } else if self.spec_auto_format() {
            formatted(self.spec_mask(), input).len() != 0
        } else {
            partial_from(self.spec_mask(), input, 0, 0)
        }
    }

    /// Empty text is accepted; otherwise it must match the mask.
    fn is_valid(&self, input: &str) -> (b: bool) {
        if input.is_empty() {
            return true;
        }
        self.matches_mask(input)
    }

    /// While typing: with formatting, the formatted text must not be empty;
    /// without it, every typed character must fit its mask position.
    fn is_valid_input(&self, input: &str, append: bool) -> (b: bool) {
        if input.is_empty() {
            return true;
        }
        if self.auto_format {
            let f = self.format(input);
            return !f.as_str().is_empty();
        }
        self.partial_fits(input)
    }

    /// The prompt `Input must match format: ` followed by the mask.
    fn error_message(&self) -> (s: String)
        ensures
            s@ == "Input must match format: "@ + self.spec_mask(),
    {
        let mut msg = str_chars("Input must match format: ");
        let ghost prefix = msg@;
        let m = string_chars(&self.mask);
        let mut i: usize = 0;
        while i < m.len()
            invariant
                i <= m@.len(),
                m@ == self.spec_mask(),
                prefix == "Input must match format: "@,
                msg@ == prefix + m@.take(i as int),
            decreases m.len() - i,
        {
            msg.push(char_at(&m, i));
            i = i + 1;
            assert(msg@ =~= prefix + m@.take(i as int));
        }
        assert(m@.take(m@.len() as int) =~= m@);
        string_from_chars(&msg)
    }

    fn valid(&self, input: &str) -> (b: bool) {
        self.is_valid(input)
    }
}

/// A validator for `mask`, formatting as the user types.
pub fn picture_validator(mask: &str) -> (v: PictureValidator)
    ensures
        v.spec_mask() == mask@,
        v.spec_auto_format(),
{
    PictureValidator::new(mask)
}


/// Whether input character `c` is what mask character `m` asks for: a field
/// takes a character of its class, anything else only itself.
pub open spec fn position_fits(c: char, m: char) -> bool {
    if m == '#' {
        '0' <= c <= '9'
    } else if m == '@' {
        ('a' <= c <= 'z') || ('A' <= c <= 'Z')
    } else if m == '!' {
        true
    } else {
        c == m
    }
}

/// Matching from mask position `mi` and input position `ii` of a mask with
/// no optional part.
proof fn lemma_starless_match(m: Seq<char>, inp: Seq<char>, mi: int, ii: int)
    requires
        0 <= mi <= m.len(),
        0 <= ii <= inp.len(),
        forall|k: int| 0 <= k < m.len() ==> m[k] != '*',
    ensures
        match_from(m, inp, mi, ii, false) <==> (inp.len() - ii == m.len() - mi && forall|j: int|
            0 <= j < m.len() - mi ==> #[trigger] position_fits(inp[ii + j], m[mi + j])),
    decreases m.len() - mi,
{
    if mi < m.len() {
        if ii < inp.len() {
            lemma_starless_match(m, inp, mi + 1, ii + 1);
            assert(char_fits(inp[ii], m[mi]) == position_fits(inp[ii], m[mi]));
            if inp.len() - ii == m.len() - mi && forall|j: int|
                0 <= j < m.len() - mi ==> #[trigger] position_fits(inp[ii + j], m[mi + j]) {
                assert(position_fits(inp[ii + 0], m[mi + 0]));
                assert forall|j: int| 0 <= j < m.len() - (mi + 1) implies #[trigger] position_fits(
                    inp[(ii + 1) + j],
                    m[(mi + 1) + j],
                ) by {
                    assert(position_fits(inp[ii + (j + 1)], m[mi + (j + 1)]));
                }
            }
            if match_from(m, inp, mi, ii, false) {
                assert forall|j: int| 0 <= j < m.len() - mi implies #[trigger] position_fits(inp[ii + j], m[mi + j]) by {
                    if j > 0 {
                        assert(position_fits(inp[(ii + 1) + (j - 1)], m[(mi + 1) + (j - 1)]));
                    }
                }
            }
        }
    }
}

/// A mask without `*` has no optional part: an entry matches it exactly
/// when it is as long as the mask and each character is what the mask
/// position it lines up with asks for (a digit for `#`, a letter for `@`,
/// anything for `!`, itself for a literal). An entry shorter than such a
/// mask never matches.
pub proof fn law_starless_mask_matches_position_by_position(v: PictureValidator, input: Seq<char>)
    requires
        forall|k: int| 0 <= k < v.spec_mask().len() ==> v.spec_mask()[k] != '*',
    ensures
        match_from(v.spec_mask(), input, 0, 0, false) <==> (input.len() == v.spec_mask().len() && forall|k: int|
            0 <= k < input.len() ==> #[trigger] position_fits(input[k], v.spec_mask()[k])),
        input.len() < v.spec_mask().len() ==> !match_from(v.spec_mask(), input, 0, 0, false),
{
    let m = v.spec_mask();
    lemma_starless_match(m, input, 0, 0);
    if input.len() == m.len() {
        if forall|k: int| 0 <= k < input.len() ==> #[trigger] position_fits(input[k], m[k]) {
            assert forall|j: int| 0 <= j < m.len() - 0 implies #[trigger] position_fits(input[0 + j], m[0 + j]) by {
                assert(position_fits(input[j], m[j]));
            }
        }
        if match_from(m, input, 0, 0, false) {
            assert forall|k: int| 0 <= k < input.len() implies #[trigger] position_fits(input[k], m[k]) by {
                assert(position_fits(input[0 + k], m[0 + k]));
            }
        }
    }
}

} // verus!
