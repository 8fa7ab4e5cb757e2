use vstd::prelude::*;

use crate::error::{AtError, AtErrorView, AtResult, IntErrorKind};
use crate::text::{chars_eq_str, chars_of, parse_int_chars, parse_int_spec};

verus! {

/// A value that can be read from the text of a setting.
pub trait Parse: Sized + DeepView {
    /// The value, taken by its deep view, that `text` stands for; `None`
    /// where `text` is not a value of the type.
    spec fn parse_spec(text: Seq<char>) -> Option<<Self as DeepView>::V>;

    /// The error, taken by its deep view, of reading `text`, where `text` is
    /// no value.
    spec fn parse_error_spec(text: Seq<char>) -> AtErrorView;

    /// Reads a value from `string`.
    fn parse(string: &str) -> (res: AtResult<Self>)
        ensures
            res is Ok <==> Self::parse_spec(string@) is Some,
            res matches Ok(v) ==> Some(v.deep_view()) == Self::parse_spec(string@),
            res matches Err(e) ==> e.deep_view() == Self::parse_error_spec(string@),
    ;
}

/// The boolean that `text` writes: exactly `true` or `false`.
pub open spec fn bool_spec(text: Seq<char>) -> Option<bool> {
    if text == "true"@ {
        Some(true)
    } else if text == "false"@ {
        Some(false)
    } else {
        None
    }
}

impl Parse for bool {
    open spec fn parse_spec(text: Seq<char>) -> Option<bool> {
        bool_spec(text)
    }

    open spec fn parse_error_spec(text: Seq<char>) -> AtErrorView {
        AtErrorView::ParseBoolError
    }

    fn parse(string: &str) -> (res: AtResult<bool>) {
        let cs = chars_of(string);
        if chars_eq_str(&cs, "true") {
            Ok(true)
        } else if chars_eq_str(&cs, "false") {
            Ok(false)
        } else {
            Err(AtError::ParseBoolError)
        }
    }
}

impl Parse for String {
    open spec fn parse_spec(text: Seq<char>) -> Option<Seq<char>> {
        Some(text)
    }

    /// Reading a string never fails; no error of this kind is returned.
    open spec fn parse_error_spec(text: Seq<char>) -> AtErrorView {
        AtErrorView::InvalidValue { expected: Seq::empty(), got: text }
    }

    fn parse(string: &str) -> (res: AtResult<String>) {
        Ok(string.to_owned())
    }
}

/// The integer within `min ..= max` that `text` writes, or `None`.
pub open spec fn int_value_spec(text: Seq<char>, min: int, max: int) -> Option<int> {
    match parse_int_spec(text, min, max) {
        Ok(v) => Some(v),
        Err(_) => None,
    }
}

/// The error of reading an integer within `min ..= max` from `text`, where
/// `text` writes none.
pub open spec fn int_error_view(text: Seq<char>, min: int, max: int) -> AtErrorView {
    match parse_int_spec(text, min, max) {
        Ok(_) => AtErrorView::ParseIntError(IntErrorKind::Empty),
        Err(k) => AtErrorView::ParseIntError(k),
    }
}

/// Reads an integer within `min ..= max` from `string`.
fn parse_int_in(string: &str, min: i128, max: i128) -> (res: AtResult<i128>)
    requires
        -0x1_0000_0000_0000_0000 < min <= 0,
        0 <= max < 0x1_0000_0000_0000_0000,
    ensures
        res is Ok <==> int_value_spec(string@, min as int, max as int) is Some,
        res matches Ok(v) ==> v == int_value_spec(string@, min as int, max as int).unwrap() && min <= v <= max,
        res matches Err(e) ==> e.deep_view() == int_error_view(string@, min as int, max as int),
{
    let cs = chars_of(string);
    proof {
        crate::text::lemma_parse_int_bounded(cs@, min as int, max as int);
    }
    match parse_int_chars(&cs, min, max) {
        Ok(v) => Ok(v),
        Err(k) => Err(AtError::ParseIntError(k)),
    }
}

impl Parse for u8 {
    open spec fn parse_spec(text: Seq<char>) -> Option<u8> {
        match int_value_spec(text, 0, u8::MAX as int) {
            Some(v) => Some(v as u8),
            None => None,
        }
    }

    open spec fn parse_error_spec(text: Seq<char>) -> AtErrorView {
        int_error_view(text, 0, u8::MAX as int)
    }

    fn parse(string: &str) -> (res: AtResult<u8>) {
        match parse_int_in(string, 0, 0xff) {
            Ok(v) => Ok(v as u8),
            Err(e) => Err(e),
        }
    }
}

impl Parse for u16 {
    open spec fn parse_spec(text: Seq<char>) -> Option<u16> {
        match int_value_spec(text, 0, u16::MAX as int) {
            Some(v) => Some(v as u16),
            None => None,
        }
    }

    open spec fn parse_error_spec(text: Seq<char>) -> AtErrorView {
        int_error_view(text, 0, u16::MAX as int)
    }

    fn parse(string: &str) -> (res: AtResult<u16>) {
        match parse_int_in(string, 0, 0xffff) {
            Ok(v) => Ok(v as u16),
            Err(e) => Err(e),
        }
    }
}

impl Parse for u32 {
    open spec fn parse_spec(text: Seq<char>) -> Option<u32> {
        match int_value_spec(text, 0, u32::MAX as int) {
            Some(v) => Some(v as u32),
            None => None,
        }
    }

    open spec fn parse_error_spec(text: Seq<char>) -> AtErrorView {
        int_error_view(text, 0, u32::MAX as int)
    }

    fn parse(string: &str) -> (res: AtResult<u32>) {
        match parse_int_in(string, 0, 0xffff_ffff) {
            Ok(v) => Ok(v as u32),
            Err(e) => Err(e),
        }
    }
}

impl Parse for u64 {
    open spec fn parse_spec(text: Seq<char>) -> Option<u64> {
        match int_value_spec(text, 0, u64::MAX as int) {
            Some(v) => Some(v as u64),
            None => None,
        }
    }

    open spec fn parse_error_spec(text: Seq<char>) -> AtErrorView {
        int_error_view(text, 0, u64::MAX as int)
    }

    fn parse(string: &str) -> (res: AtResult<u64>) {
        match parse_int_in(string, 0, 0xffff_ffff_ffff_ffff) {
            Ok(v) => Ok(v as u64),
            Err(e) => Err(e),
        }
    }
}

impl Parse for usize {
    open spec fn parse_spec(text: Seq<char>) -> Option<usize> {
        match int_value_spec(text, 0, usize::MAX as int) {
            Some(v) => Some(v as usize),
            None => None,
        }
    }

    open spec fn parse_error_spec(text: Seq<char>) -> AtErrorView {
        int_error_view(text, 0, usize::MAX as int)
    }

    fn parse(string: &str) -> (res: AtResult<usize>) {
        match parse_int_in(string, 0, usize::MAX as i128) {
            Ok(v) => Ok(v as usize),
            Err(e) => Err(e),
        }
    }
}

impl Parse for i8 {
    open spec fn parse_spec(text: Seq<char>) -> Option<i8> {
        match int_value_spec(text, i8::MIN as int, i8::MAX as int) {
            Some(v) => Some(v as i8),
            None => None,
        }
    }

    open spec fn parse_error_spec(text: Seq<char>) -> AtErrorView {
        int_error_view(text, i8::MIN as int, i8::MAX as int)
    }

    fn parse(string: &str) -> (res: AtResult<i8>) {
        match parse_int_in(string, -0x80, 0x7f) {
            Ok(v) => Ok(v as i8),
            Err(e) => Err(e),
        }
    }
}

impl Parse for i16 {
    open spec fn parse_spec(text: Seq<char>) -> Option<i16> {
        match int_value_spec(text, i16::MIN as int, i16::MAX as int) {
            Some(v) => Some(v as i16),
            None => None,
        }
    }

    open spec fn parse_error_spec(text: Seq<char>) -> AtErrorView {
        int_error_view(text, i16::MIN as int, i16::MAX as int)
    }

    fn parse(string: &str) -> (res: AtResult<i16>) {
        match parse_int_in(string, -0x8000, 0x7fff) {
            Ok(v) => Ok(v as i16),
            Err(e) => Err(e),
        }
    }
}

impl Parse for i32 {
    open spec fn parse_spec(text: Seq<char>) -> Option<i32> {
        match int_value_spec(text, i32::MIN as int, i32::MAX as int) {
            Some(v) => Some(v as i32),
            None => None,
        }
    }

    open spec fn parse_error_spec(text: Seq<char>) -> AtErrorView {
        int_error_view(text, i32::MIN as int, i32::MAX as int)
    }

    fn parse(string: &str) -> (res: AtResult<i32>) {
        match parse_int_in(string, -0x8000_0000, 0x7fff_ffff) {
            Ok(v) => Ok(v as i32),
            Err(e) => Err(e),
        }
    }
}

impl Parse for i64 {
    open spec fn parse_spec(text: Seq<char>) -> Option<i64> {
        match int_value_spec(text, i64::MIN as int, i64::MAX as int) {
            Some(v) => Some(v as i64),
            None => None,
        }
    }

    open spec fn parse_error_spec(text: Seq<char>) -> AtErrorView {
        int_error_view(text, i64::MIN as int, i64::MAX as int)
    }

    fn parse(string: &str) -> (res: AtResult<i64>) {
        match parse_int_in(string, -0x8000_0000_0000_0000, 0x7fff_ffff_ffff_ffff) {
            Ok(v) => Ok(v as i64),
            Err(e) => Err(e),
        }
    }
}

impl Parse for isize {
    open spec fn parse_spec(text: Seq<char>) -> Option<isize> {
        match int_value_spec(text, isize::MIN as int, isize::MAX as int) {
            Some(v) => Some(v as isize),
            None => None,
        }
    }

    open spec fn parse_error_spec(text: Seq<char>) -> AtErrorView {
        int_error_view(text, isize::MIN as int, isize::MAX as int)
    }

    fn parse(string: &str) -> (res: AtResult<isize>) {
        match parse_int_in(string, isize::MIN as i128, isize::MAX as i128) {
            Ok(v) => Ok(v as isize),
            Err(e) => Err(e),
        }
    }
}

} // verus!
