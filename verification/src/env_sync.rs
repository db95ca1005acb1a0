//! Checks and reads of Windows user environment variables, and the sign-up
//! pages of the providers.
use vstd::prelude::*;
use vstd::string::StringSliceAdditionalSpecFns;

use crate::text::{
    blank, has_char, is_blank, split_on, split_seq, starts_with, starts_with_seq, str_eq, trim,
    trim_seq, views,
};

verus! {

/// The longest value a Windows user environment variable (`REG_SZ`) can
/// hold, in UTF-16 code units.
pub const WINDOWS_USER_ENV_MAX_LEN: usize = 32767;

/// The UTF-16 code units of one character: two above the Basic
/// Multilingual Plane, one otherwise.
pub open spec fn utf16_units(c: char) -> nat {
    if (c as u32) < 0x10000 {
        1
    } else {
        2
    }
}

/// The length of a text in UTF-16 code units (what `str::encode_utf16`
/// yields).
pub open spec fn utf16_len(s: Seq<char>) -> nat
    decreases s.len(),
{
    if s.len() == 0 {
        0
    } else {
        utf16_units(s[0]) + utf16_len(s.drop_first())
    }
}

proof fn lemma_utf16_len_le_utf8(s: Seq<char>)
    ensures
        utf16_len(s) <= vstd::utf8::encode_utf8(s).len(),
    decreases s.len(),
{
    if s.len() > 0 {
        lemma_utf16_len_le_utf8(s.drop_first());
        let v = s[0] as u32;
        vstd::utf8::char_is_scalar(s[0]);
        assert(vstd::utf8::encode_scalar(v).len() >= utf16_units(s[0]));
    }
}

/// The length of `value` in UTF-16 code units.
fn utf16_count(value: &str) -> (r: usize)
    ensures
        r == utf16_len(value@),
{
    let bytes = value.as_bytes().len();
    let v = crate::text::chars_of(value);
    let ghost s = value@;
    proof {
        lemma_utf16_len_le_utf8(s);
        assert(s.skip(0) =~= s);
    }
    let mut n: usize = 0;
    let mut i: usize = 0;
    while i < v.len()
        invariant
            v@ == s,
            i <= v.len(),
            n + utf16_len(s.skip(i as int)) == utf16_len(s),
            utf16_len(s) <= bytes,
        decreases v.len() - i,
    {
        assert(s.skip(i as int).drop_first() =~= s.skip(i + 1));
        assert(s.skip(i as int)[0] == v@[i as int]);
        let c = v[i];
        if (c as u32) < 0x10000 {
            n = n + 1;
        } else {
            n = n + 2;
        }
        i = i + 1;
    }
    assert(s.skip(i as int) =~= Seq::<char>::empty());
    n
}

/// Why an environment entry cannot be written.
#[derive(PartialEq, Eq, Structural)]
pub enum EnvEntryError {
    /// The name is blank.
    EmptyKey,
    /// The name contains `=`.
    KeyContainsEquals,
    /// The value is longer than the limit; its length in UTF-16 code units
    /// is given.
    ValueTooLong(usize),
}

impl EnvEntryError {
    /// The error text for the variable `key`.
    pub fn message(&self, key: &str) -> (r: String)
        ensures
            r@ == match *self {
                EnvEntryError::EmptyKey => "环境变量名不能为空"@,
                EnvEntryError::KeyContainsEquals => "环境变量名不能包含 '='"@,
                EnvEntryError::ValueTooLong(n) => "环境变量 "@ + key@ + " 值过长（"@
                    + crate::text::decimal_seq(n as nat) + " 字符），Windows 上限为 32767"@,
            },
    {
        match self {
            EnvEntryError::EmptyKey => "环境变量名不能为空".to_string(),
            EnvEntryError::KeyContainsEquals => "环境变量名不能包含 '='".to_string(),
            EnvEntryError::ValueTooLong(n) => {
                let len = crate::text::u64_decimal(*n as u64);
                let mut r = crate::text::concat3("环境变量 ", key, " 值过长（");
                crate::text::push_str(&mut r, len.as_str());
                crate::text::push_str(&mut r, " 字符），Windows 上限为 32767");
                r
            },
        }
    }
}

/// Checks a name and value before writing them as a Windows user
/// environment variable.
pub fn validate_windows_env_entry(key: &str, value: &str) -> (r: Result<(), EnvEntryError>)
    ensures
        is_blank(key@) ==> r == Err::<(), EnvEntryError>(EnvEntryError::EmptyKey),
        !is_blank(key@) && key@.contains('=') ==> r == Err::<(), EnvEntryError>(
            EnvEntryError::KeyContainsEquals,
        ),
        !is_blank(key@) && !key@.contains('=') && utf16_len(value@) > 32767 ==> r == Err::<
            (),
            EnvEntryError,
        >(EnvEntryError::ValueTooLong(utf16_len(value@) as usize)),
        r is Ok <==> !is_blank(key@) && !key@.contains('=') && utf16_len(value@) <= 32767,
{
    if blank(key) {
        return Err(EnvEntryError::EmptyKey);
    }
    if has_char(key, '=') {
        return Err(EnvEntryError::KeyContainsEquals);
    }
    let len = utf16_count(value);
    if len > WINDOWS_USER_ENV_MAX_LEN {
        return Err(EnvEntryError::ValueTooLong(len));
    }
    Ok(())
}

/// The value `reg query` prints for `key`: on the first line (trimmed) that
/// starts with the name, the text after the name and `REG_SZ`, trimmed; a
/// matching line without `REG_SZ` ends the search with nothing; an empty
/// value moves on to the next line.
pub open spec fn reg_value_v(lines: Seq<Seq<char>>, key: Seq<char>) -> Option<Seq<char>>
    decreases lines.len(),
{
    if lines.len() == 0 {
        None
    } else {
        let line = trim_seq(lines[0]);
        if !starts_with_seq(line, key) {
            reg_value_v(lines.skip(1), key)
        } else {
            let rest = trim_seq(line.skip(key.len() as int));
            if !starts_with_seq(rest, "REG_SZ"@) {
                None
            } else {
                let value = trim_seq(rest.skip(6));
                if value.len() > 0 {
                    Some(value)
                } else {
                    reg_value_v(lines.skip(1), key)
                }
            }
        }
    }
}

fn skip_chars(s: &str, n: usize) -> (r: String)
    requires
        n <= s@.len(),
    ensures
        r@ == s@.skip(n as int),
{
    let v = crate::text::chars_of(s);
    let r = crate::text::string_of_range(&v, n, v.len());
    assert(r@ =~= s@.skip(n as int));
    r
}

/// Reads the value of `key` from the output of `reg query`.
pub fn parse_reg_query_value(text: &str, key: &str) -> (r: Option<String>)
    ensures
        match reg_value_v(split_seq(text@, '\n'), key@) {
            Some(v) => r is Some && r->0@ == v,
            None => r is None,
        },
{
    proof {
        reveal_strlit("REG_SZ");
        assert("REG_SZ"@.len() == 6);
    }
    let lines = split_on(text, '\n');
    let ghost lv = views(lines@);
    let mut i: usize = 0;
    proof {
        assert(lv.skip(0) =~= lv);
    }
    while i < lines.len()
        invariant
            i <= lines.len(),
            lv == views(lines@),
            lv == split_seq(text@, '\n'),
            reg_value_v(lv, key@) == reg_value_v(lv.skip(i as int), key@),
            "REG_SZ"@.len() == 6,
        decreases lines.len() - i,
    {
        proof {
            assert(lv.skip(i as int)[0] == lines@[i as int]@);
            assert(lv.skip(i as int).skip(1) =~= lv.skip(i + 1));
        }
        let line = trim(lines[i].as_str());
        if starts_with(line.as_str(), key) {
            let kl = crate::text::chars_of(key).len();
            let after = skip_chars(line.as_str(), kl);
            let rest = trim(after.as_str());
            if !starts_with(rest.as_str(), "REG_SZ") {
                return None;
            }
            let v = skip_chars(rest.as_str(), 6);
            let value = trim(v.as_str());
            if !value.as_str().is_empty() {
                return Some(value);
            }
        }
        i = i + 1;
    }
    proof {
        assert(lv.skip(lines.len() as int) =~= Seq::<Seq<char>>::empty());
    }
    None
}

/// Where to get an API key for a provider (empty when unknown).
pub open spec fn signup_url_v(provider_id: Seq<char>) -> Seq<char> {
    if provider_id == "deepseek"@ {
        "https://platform.deepseek.com/"@
    } else if provider_id == "qwen"@ {
        "https://dashscope.aliyun.com/"@
    } else if provider_id == "kimi"@ || provider_id == "moonshot"@ {
        "https://platform.moonshot.cn/"@
    } else if provider_id == "zhipu"@ {
        "https://www.bigmodel.cn/"@
    } else if provider_id == "minimax"@ {
        "https://platform.minimaxi.com/"@
    } else if provider_id == "mimo"@ {
        "https://platform.xiaomimimo.com/"@
    } else {
        ""@
    }
}

pub fn signup_url(provider_id: &str) -> (r: &'static str)
    ensures
        r@ == signup_url_v(provider_id@),
{
    if str_eq(provider_id, "deepseek") {
        "https://platform.deepseek.com/"
    } else if str_eq(provider_id, "qwen") {
        "https://dashscope.aliyun.com/"
    } else if str_eq(provider_id, "kimi") || str_eq(provider_id, "moonshot") {
        "https://platform.moonshot.cn/"
    } else if str_eq(provider_id, "zhipu") {
        "https://www.bigmodel.cn/"
    } else if str_eq(provider_id, "minimax") {
        "https://platform.minimaxi.com/"
    } else if str_eq(provider_id, "mimo") {
        "https://platform.xiaomimimo.com/"
    } else {
        ""
    }
}


/// The `.env` file written for Codex: a comment naming the helper, then
/// the API key.
pub open spec fn codex_dotenv_v(openai_api_key: Seq<char>) -> Seq<char> {
    "# 由 codex-helper 自动生成，供 Codex Desktop / CLI 读取\nOPENAI_API_KEY="@ + openai_api_key + "\n"@
}

pub fn codex_dotenv_content(openai_api_key: &str) -> (r: String)
    ensures
        r@ == codex_dotenv_v(openai_api_key@),
{
    crate::text::concat3(
        "# 由 codex-helper 自动生成，供 Codex Desktop / CLI 读取\nOPENAI_API_KEY=",
        openai_api_key,
        "\n",
    )
}

} // verus!
