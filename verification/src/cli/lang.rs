//! The language that the command line speaks.

use vstd::prelude::*;

use crate::text::{
    as_text, lowered, same_text, starts_with, str_view, string_view, text_of, to_lower, chars_of,
};

verus! {

#[derive(Debug, Clone, Copy, PartialEq, Eq, Structural)]
pub enum Lang {
    Zh,
    En,
}

/// What the surroundings of the process tell of the language.
#[derive(Debug, Clone)]
pub struct Surroundings {
    /// The variable `DL_LANG`.
    pub dl_lang: Option<String>,
    /// The name of the user's locale, on a platform that has one beside the
    /// variables.
    pub locale: Option<String>,
    /// The variable `LC_ALL`.
    pub lc_all: Option<String>,
    /// The variable `LANG`.
    pub lang: Option<String>,
    /// The variable `LANGUAGE`.
    pub language: Option<String>,
}

/// The value begins with a language code, in letters of either case.
pub open spec fn begins_with(value: Option<Seq<char>>, code: Seq<char>) -> bool {
    value matches Some(text) && code.is_prefix_of(lowered(text))
}

fn begins(value: &Option<String>, code: &str) -> (r: bool)
    ensures
        r == begins_with(string_view(*value), code@),
{
    match value {
        Some(text) => starts_with(to_lower(text.as_str()).as_str(), code),
        None => false,
    }
}

/// The language of a locale: Chinese where its name says so, else English.
pub open spec fn locale_lang(name: Option<Seq<char>>) -> Lang {
    if begins_with(name, "zh"@) {
        Lang::Zh
    } else {
        Lang::En
    }
}

/// The language that the surroundings ask for: the one that `DL_LANG` names if
/// it names one, else the one of the first locale that is told.
pub open spec fn detected(around: Surroundings) -> Lang {
    if begins_with(string_view(around.dl_lang), "en"@) {
        Lang::En
    } else if begins_with(string_view(around.dl_lang), "zh"@) {
        Lang::Zh
    } else if around.locale is Some {
        locale_lang(string_view(around.locale))
    } else if around.lc_all is Some {
        locale_lang(string_view(around.lc_all))
    } else if around.lang is Some {
        locale_lang(string_view(around.lang))
    } else {
        locale_lang(string_view(around.language))
    }
}

/// The language that the value of the option `--lang` names; `None` where it
/// names none that is spoken.
pub open spec fn named_lang(value: Option<Seq<char>>, around: Surroundings) -> Option<Lang> {
    match value {
        None => Some(detected(around)),
        Some(text) => {
            let name = lowered(text);
            if name == "auto"@ {
                Some(detected(around))
            } else if name == "zh"@ || name == "zh-cn"@ || name == "中文"@ {
                Some(Lang::Zh)
            } else if name == "en"@ || name == "en-us"@ || name == "english"@ {
                Some(Lang::En)
            } else {
                None
            }
        },
    }
}

/// The text that tells of a language that is not spoken.
pub open spec fn unspoken_text(value: Seq<char>) -> Seq<char> {
    "不支持的语言："@ + lowered(value) + "（可选 auto、zh、en）"@
}

impl Lang {
    /// The language of a locale.
    fn of_locale(name: &Option<String>) -> (lang: Self)
        ensures
            lang == locale_lang(string_view(*name)),
    {
        if begins(name, "zh") {
            Lang::Zh
        } else {
            Lang::En
        }
    }

    /// The language that the surroundings ask for.
    pub fn detect(around: &Surroundings) -> (lang: Self)
        ensures
            lang == detected(*around),
    {
        if begins(&around.dl_lang, "en") {
            Lang::En
        } else if begins(&around.dl_lang, "zh") {
            Lang::Zh
        } else if around.locale.is_some() {
            Lang::of_locale(&around.locale)
        } else if around.lc_all.is_some() {
            Lang::of_locale(&around.lc_all)
        } else if around.lang.is_some() {
            Lang::of_locale(&around.lang)
        } else {
            Lang::of_locale(&around.language)
        }
    }

    /// The language that the value of the option `--lang` names.
    pub fn from_arg(value: Option<&str>, around: &Surroundings) -> (r: Result<Self, String>)
        ensures
            match r {
                Ok(lang) => named_lang(str_view(value), *around) == Some(lang),
                Err(text) => named_lang(str_view(value), *around) is None && value is Some
                    && text@ == unspoken_text(value->0@),
            },
    {
        let name = match value {
            None => {
                return Ok(Lang::detect(around));
            },
            Some(text) => to_lower(text),
        };
        if same_text(name.as_str(), "auto") {
            Ok(Lang::detect(around))
        } else if same_text(name.as_str(), "zh") || same_text(name.as_str(), "zh-cn") || same_text(
            name.as_str(),
            "中文",
        ) {
            Ok(Lang::Zh)
        } else if same_text(name.as_str(), "en") || same_text(name.as_str(), "en-us") || same_text(
            name.as_str(),
            "english",
        ) {
            Ok(Lang::En)
        } else {
            let mut text = "不支持的语言：".to_owned();
            text.append(name.as_str());
            text.append("（可选 auto、zh、en）");
            Err(text)
        }
    }

    /// The code of the language.
    pub fn code(self) -> (code: &'static str)
        ensures
            code@ == (if self == Lang::Zh {
                "zh"@
            } else {
                "en"@
            }),
    {
        match self {
            Lang::Zh => "zh",
            Lang::En => "en",
        }
    }
}

/// What the argument at `index` asks for: the rest of `--lang=..`, or the
/// argument that follows `--lang`.
pub open spec fn asked_at(args: Seq<String>, index: int) -> Option<Seq<char>> {
    let arg = args[index]@;
    if "--lang="@.is_prefix_of(arg) {
        Some(arg.skip("--lang="@.len() as int))
    } else if arg == "--lang"@ && index + 1 < args.len() {
        Some(args[index + 1]@)
    } else {
        None
    }
}

/// What the first of the arguments from `index` on that asks for a language
/// asks for.
pub open spec fn asked_from(args: Seq<String>, index: int) -> Option<Seq<char>>
    decreases args.len() - index,
{
    if index < 0 || index >= args.len() {
        None
    } else {
        match asked_at(args, index) {
            Some(value) => Some(value),
            None => asked_from(args, index + 1),
        }
    }
}

fn asked_by(args: &Vec<String>, index: usize) -> (r: Option<String>)
    requires
        index < args@.len(),
    ensures
        string_view(r) == asked_at(args@, index as int),
{
    let total: usize = args.len();
    let arg = args[index].as_str();
    if starts_with(arg, "--lang=") {
        let chars = chars_of(arg);
        let from: usize = chars_of("--lang=").len();
        let value = text_of(chars.as_slice(), from, chars.len());
        assert(value@ =~= arg@.skip(from as int));
        Some(value)
    } else if same_text(arg, "--lang") && index + 1 < total {
        Some(args[index + 1].clone())
    } else {
        None
    }
}

/// The language that the arguments ask for, and where they ask for none that is
/// spoken, the one that the surroundings do.
pub open spec fn lang_of_args(args: Seq<String>, around: Surroundings) -> Lang {
    match named_lang(asked_from(args, 0), around) {
        Some(lang) => lang,
        None => detected(around),
    }
}

/// The language that the arguments ask for.
pub fn language_from_args(args: &Vec<String>, around: &Surroundings) -> (lang: Lang)
    ensures
        lang == lang_of_args(args@, *around),
{
    let mut asked: Option<String> = None;
    let total: usize = args.len();
    let mut index: usize = 0;
    while index < total && asked.is_none()
        invariant
            index <= total == args@.len(),
            match asked {
                Some(value) => Some(value@) == asked_from(args@, 0),
                None => asked_from(args@, 0) == asked_from(args@, index as int),
            },
        decreases total - index,
    {
        asked = asked_by(args, index);
        index += 1;
    }
    match Lang::from_arg(as_text(&asked), around) {
        Ok(lang) => lang,
        Err(_) => Lang::detect(around),
    }
}

/// One of two texts, by the language.
pub fn text(lang: Lang, zh: &str, en: &str) -> (r: String)
    ensures
        r@ == (if lang == Lang::Zh {
            zh@
        } else {
            en@
        }),
{
    if lang == Lang::Zh {
        zh.to_owned()
    } else {
        en.to_owned()
    }
}

/// Where `DL_LANG` begins with a language, in letters of either case, it
/// decides, whatever the locales say.
pub proof fn own_variable_decides(around: Surroundings, value: String)
    requires
        around.dl_lang == Some(value),
    ensures
        "en"@.is_prefix_of(lowered(value@)) ==> detected(around) == Lang::En,
        "zh"@.is_prefix_of(lowered(value@)) ==> detected(around) == Lang::Zh,
{
    reveal_strlit("en");
    reveal_strlit("zh");
    let name = lowered(value@);
    if "en"@.is_prefix_of(name) {
        assert(name[0] == "en"@[0]);
    }
    if "zh"@.is_prefix_of(name) {
        assert(name[0] == "zh"@[0]);
    }
}

/// Without a word from `DL_LANG`, the first that is told of the locale of the
/// user, `LC_ALL`, `LANG` and `LANGUAGE` decides: Chinese where it begins with
/// `zh`, in letters of either case, and else English. Where none is told, it is
/// English.
pub proof fn first_locale_decides(around: Surroundings, value: String)
    requires
        around.dl_lang is None,
    ensures
        ({
            let lang = if "zh"@.is_prefix_of(lowered(value@)) {
                Lang::Zh
            } else {
                Lang::En
            };
            &&& around.locale == Some(value) ==> detected(around) == lang
            &&& around.locale is None && around.lc_all == Some(value) ==> detected(around) == lang
            &&& around.locale is None && around.lc_all is None && around.lang == Some(value)
                ==> detected(around) == lang
            &&& around.locale is None && around.lc_all is None && around.lang is None
                && around.language == Some(value) ==> detected(around) == lang
            &&& around.locale is None && around.lc_all is None && around.lang is None
                && around.language is None ==> detected(around) == Lang::En
        }),
{
}

/// The names of the languages, in letters of either case, name them whatever
/// the surroundings ask for; `auto` and no name at all leave it to those.
pub proof fn names_name_their_language(text: Seq<char>, around: Surroundings)
    ensures
        lowered(text) == "zh"@ || lowered(text) == "zh-cn"@ || lowered(text) == "中文"@
            ==> named_lang(Some(text), around) == Some(Lang::Zh),
        lowered(text) == "en"@ || lowered(text) == "en-us"@ || lowered(text) == "english"@
            ==> named_lang(Some(text), around) == Some(Lang::En),
        lowered(text) == "auto"@ ==> named_lang(Some(text), around) == Some(detected(around)),
        named_lang(None, around) == Some(detected(around)),
        named_lang(Some(text), around) is Some ==> lowered(text) == "zh"@ || lowered(text)
            == "zh-cn"@ || lowered(text) == "中文"@ || lowered(text) == "en"@ || lowered(text)
            == "en-us"@ || lowered(text) == "english"@ || lowered(text) == "auto"@,
{
    reveal_strlit("zh");
    reveal_strlit("zh-cn");
    reveal_strlit("中文");
    reveal_strlit("en");
    reveal_strlit("en-us");
    reveal_strlit("english");
    reveal_strlit("auto");
    let name = lowered(text);
    assert(name == "zh"@ ==> name[0] == 'z');
    assert(name == "zh-cn"@ ==> name[0] == 'z');
    assert(name == "中文"@ ==> name[0] == '中');
    assert(name == "en"@ ==> name[0] == 'e');
    assert(name == "en-us"@ ==> name[0] == 'e');
    assert(name == "english"@ ==> name[0] == 'e');
    assert(name == "auto"@ ==> name[0] == 'a');
}

/// An argument has nothing to do with the language.
pub open spec fn is_other_argument(arg: Seq<char>) -> bool {
    arg != "--lang"@ && !"--lang="@.is_prefix_of(arg)
}

/// The first `--lang=..` or `--lang` with an argument behind it is what the
/// arguments ask for, whatever comes behind it.
pub proof fn first_language_argument_counts(args: Seq<String>, k: int, value: Seq<char>)
    requires
        0 <= k < args.len(),
        forall|i: int| 0 <= i < k ==> is_other_argument((#[trigger] args[i])@),
    ensures
        args[k]@ == "--lang="@ + value ==> asked_from(args, 0) == Some(value),
        args[k]@ == "--lang"@ && k + 1 < args.len() ==> asked_from(args, 0) == Some(args[k + 1]@),
        args[k]@ == "--lang"@ && k + 1 == args.len() ==> asked_from(args, 0) is None,
{
    lemma_asked_from(args, 0, k);
    if args[k]@ == "--lang="@ + value {
        assert(args[k]@.skip("--lang="@.len() as int) =~= value);
        assert(args[k]@.take("--lang="@.len() as int) =~= "--lang="@);
    }
    if args[k]@ == "--lang"@ {
        reveal_strlit("--lang");
        reveal_strlit("--lang=");
        reveal_with_fuel(asked_from, 2);
    }
}

/// Arguments none of which has to do with the language ask for none.
pub proof fn other_arguments_ask_for_no_language(args: Seq<String>)
    requires
        forall|i: int| 0 <= i < args.len() ==> is_other_argument((#[trigger] args[i])@),
    ensures
        asked_from(args, 0) is None,
{
    lemma_asked_from(args, 0, args.len() as int);
}

proof fn lemma_asked_from(args: Seq<String>, from: int, k: int)
    requires
        0 <= from <= k <= args.len(),
        forall|i: int| from <= i < k ==> is_other_argument((#[trigger] args[i])@),
    ensures
        asked_from(args, from) == asked_from(args, k),
    decreases k - from,
{
    if from < k {
        lemma_asked_from(args, from + 1, k);
        assert(is_other_argument(args[from]@));
    }
}

/// What the arguments ask for comes before what the surroundings do; where they
/// ask for no language that is spoken, the surroundings decide.
pub proof fn arguments_come_before_surroundings(args: Seq<String>, around: Surroundings)
    ensures
        asked_from(args, 0) matches Some(value) ==> {
            &&& lowered(value) == "zh"@ || lowered(value) == "zh-cn"@ ==> lang_of_args(args, around)
                == Lang::Zh
            &&& lowered(value) == "en"@ || lowered(value) == "en-us"@ ==> lang_of_args(args, around)
                == Lang::En
            &&& named_lang(Some(value), around) is None ==> lang_of_args(args, around) == detected(
                around,
            )
        },
        asked_from(args, 0) is None ==> lang_of_args(args, around) == detected(around),
{
    if asked_from(args, 0) is Some {
        names_name_their_language(asked_from(args, 0)->0, around);
    }
}

/// What is told of a language that is not spoken names it, in small letters, and
/// those that are.
pub proof fn unspoken_language_is_named(value: Seq<char>)
    ensures
        unspoken_text(value) == "不支持的语言："@ + lowered(value) + "（可选 auto、zh、en）"@,
{
}

} // verus!
