//! Playback rate and volume reach the bridge as already rendered decimal
//! text.  This module holds the JSON number grammar, a checker for it, and a
//! text type that carries only checked renderings, so that a snapshot's JSON
//! object can embed the text verbatim and stay well formed.

use vstd::prelude::*;

use crate::text::line_safe;

verus! {

/// A decimal digit, as a character.
pub open spec fn is_digit_char(c: char) -> bool {
    0x30 <= c as u32 <= 0x39
}

/// Any character the JSON number grammar can produce.
pub open spec fn is_number_char(c: char) -> bool {
    is_digit_char(c) || c == '-' || c == '+' || c == '.' || c == 'e' || c == 'E'
}

/// The first position at or after `i` that does not hold a digit.
pub open spec fn digits_end(s: Seq<char>, i: int) -> int
    decreases s.len() - i,
{
    if i < 0 || i >= s.len() || !is_digit_char(s[i]) {
        i
    } else {
        digits_end(s, i + 1)
    }
}

/// Where the optional leading minus sign ends.
pub open spec fn sign_end(s: Seq<char>) -> int {
    if s.len() > 0 && s[0] == '-' {
        1
    } else {
        0
    }
}

/// Where the integer part ends, starting at `i`; -1 if there is no valid
/// integer part there.  A leading zero may only stand alone.
pub open spec fn int_end(s: Seq<char>, i: int) -> int {
    if i >= s.len() {
        -1
    } else if s[i] == '0' {
        i + 1
    } else if is_digit_char(s[i]) {
        digits_end(s, i)
    } else {
        -1
    }
}

/// Where the optional fraction part ends, starting at `i`; -1 if a fraction
/// starts there but is malformed.
pub open spec fn frac_end(s: Seq<char>, i: int) -> int {
    if 0 <= i < s.len() && s[i] == '.' {
        if i + 1 < s.len() && is_digit_char(s[i + 1]) {
            digits_end(s, i + 1)
        } else {
            -1
        }
    } else {
        i
    }
}

/// Where the optional exponent part ends, starting at `i`; -1 if an exponent
/// starts there but is malformed.
pub open spec fn exp_end(s: Seq<char>, i: int) -> int {
    if 0 <= i < s.len() && (s[i] == 'e' || s[i] == 'E') {
        let j = if i + 1 < s.len() && (s[i + 1] == '+' || s[i + 1] == '-') {
            i + 2
        } else {
            i + 1
        };
        if j < s.len() && is_digit_char(s[j]) {
            digits_end(s, j)
        } else {
            -1
        }
    } else {
        i
    }
}

/// The JSON number grammar: an optional minus sign, an integer part without
/// a superfluous leading zero, an optional fraction, an optional exponent,
/// and nothing after them.
pub open spec fn is_json_number(s: Seq<char>) -> bool {
    let a = int_end(s, sign_end(s));
    a >= 0 && {
        let b = frac_end(s, a);
        b >= 0 && exp_end(s, b) == s.len()
    }
}

pub proof fn lemma_digits_end_bounds(s: Seq<char>, i: int)
    requires
        0 <= i <= s.len(),
    ensures
        i <= digits_end(s, i) <= s.len(),
        forall|k: int| i <= k < digits_end(s, i) ==> is_digit_char(s[k]),
    decreases s.len() - i,
{
    if i < s.len() && is_digit_char(s[i]) {
        lemma_digits_end_bounds(s, i + 1);
    }
}

/// Every character of a well-formed number rendering belongs to the number
/// alphabet; in particular the rendering is nonempty and never leaves its
/// line.
pub proof fn lemma_number_chars(s: Seq<char>)
    requires
        is_json_number(s),
    ensures
        s.len() > 0,
        forall|k: int| 0 <= k < s.len() ==> is_number_char(s[k]),
        line_safe(s),
{
    let i0 = sign_end(s);
    let a = int_end(s, i0);
    let b = frac_end(s, a);
    let c = exp_end(s, b);
    lemma_digits_end_bounds(s, i0);
    assert(i0 < s.len() && a >= i0);
    assert(forall|k: int| i0 <= k < a ==> is_digit_char(s[k]));
    if 0 <= a < s.len() && s[a] == '.' {
        lemma_digits_end_bounds(s, a + 1);
    }
    assert(a <= b <= s.len());
    assert(forall|k: int| a <= k < b ==> is_number_char(s[k]));
    if 0 <= b < s.len() && (s[b] == 'e' || s[b] == 'E') {
        let j = if b + 1 < s.len() && (s[b + 1] == '+' || s[b + 1] == '-') {
            b + 2
        } else {
            b + 1
        };
        lemma_digits_end_bounds(s, j);
        assert(forall|k: int| b <= k < c ==> is_number_char(s[k]));
    }
    assert(b <= c <= s.len());
    assert(c == s.len());
    assert(forall|k: int| 0 <= k < s.len() ==> is_number_char(s[k]));
    assert forall|k: int| 0 <= k < s.len() implies s[k] != '\n' by {
        assert(is_number_char(s[k]));
    }
}

fn is_digit_at(s: &str, i: usize) -> (r: bool)
    requires
        i < s@.len(),
    ensures
        r == is_digit_char(s@[i as int]),
{
    let c = s.get_char(i);
    let u: u32 = c as u32;
    0x30 <= u && u <= 0x39
}

fn digits_end_exec(s: &str, n: usize, from: usize) -> (j: usize)
    requires
        n == s@.len(),
        from <= n,
    ensures
        j == digits_end(s@, from as int),
        from <= j <= n,
{
    let mut j: usize = from;
    while j < n && is_digit_at(s, j)
        invariant
            from <= j <= n,
            n == s@.len(),
            digits_end(s@, from as int) == digits_end(s@, j as int),
        decreases n - j,
    {
        j = j + 1;
    }
    j
}

/// Decides the JSON number grammar on a rendering.
pub fn check_json_number(s: &str) -> (r: bool)
    ensures
        r == is_json_number(s@),
{
    let n: usize = s.unicode_len();
    let i0: usize = if n > 0 && s.get_char(0) == '-' {
        1
    } else {
        0
    };
    assert(i0 as int == sign_end(s@));
    if i0 >= n {
        return false;
    }
    let a: usize = if s.get_char(i0) == '0' {
        i0 + 1
    } else if is_digit_at(s, i0) {
        digits_end_exec(s, n, i0)
    } else {
        return false;
    };
    assert(a as int == int_end(s@, i0 as int));
    let b: usize = if a < n && s.get_char(a) == '.' {
        if a + 1 < n && is_digit_at(s, a + 1) {
            digits_end_exec(s, n, a + 1)
        } else {
            return false;
        }
    } else {
        a
    };
    assert(b as int == frac_end(s@, a as int));
    let c: usize = if b < n && (s.get_char(b) == 'e' || s.get_char(b) == 'E') {
        let j: usize = if b + 1 < n && (s.get_char(b + 1) == '+' || s.get_char(b + 1) == '-') {
            b + 2
        } else {
            b + 1
        };
        if j < n && is_digit_at(s, j) {
            digits_end_exec(s, n, j)
        } else {
            return false;
        }
    } else {
        b
    };
    assert(c as int == exp_end(s@, b as int));
    c == n
}

/// A decimal rendering that has passed the JSON number grammar.  Values of
/// this type exist only through [`NumberText::make`], so every one of them
/// can stand verbatim inside a JSON object.
pub struct NumberText {
    text: String,
}

impl NumberText {
    /// The characters of the rendering.
    pub closed spec fn chars(self) -> Seq<char> {
        self.text@
    }

    #[verifier::type_invariant]
    pub closed spec fn inv(self) -> bool {
        is_json_number(self.text@)
    }

    /// Accepts a rendering exactly when it satisfies the JSON number
    /// grammar.
    pub fn make(text: String) -> (r: Option<NumberText>)
        ensures
            r is Some <==> is_json_number(text@),
            r is Some ==> r->Some_0.chars() == text@,
    {
        if check_json_number(text.as_str()) {
            Some(NumberText { text })
        } else {
            None
        }
    }

    /// The rendering itself.
    pub fn as_text(&self) -> (r: &str)
        ensures
            r@ == self.chars(),
    {
        self.text.as_str()
    }

    /// What construction guarantees of every value of this type.
    pub proof fn lemma_valid(&self)
        requires
            self.inv(),
        ensures
            is_json_number(self.chars()),
            self.chars().len() > 0,
            line_safe(self.chars()),
    {
        lemma_number_chars(self.text@);
    }
}

impl Clone for NumberText {
    fn clone(&self) -> (r: Self)
        ensures
            r == *self,
    {
        proof {
            use_type_invariant(self);
        }
        NumberText { text: self.text.clone() }
    }
}

} // verus!
