//! What the arguments of the command line mean.

use base64::Engine;
use vstd::prelude::*;
use vstd::utf8::encode_utf8;

use crate::cli::lang::Lang;
use crate::client::DownloadSource;
use crate::links::{parse_url, parsed_url, UrlParts, UrlView};
use crate::text::{
    chars_of, decimal, decimal_reads_back, ends_with, is_digit, is_space, lemma_decimal_digits,
    only_digits_are_numbers, parse_number, parsed_number, starts_with, string_view, text_of, trim,
    trim_range, trimmed, trimming_keeps_the_middle, ParseNumberError,
};
use crate::torrent::{input_of, sources_are_told_by_their_beginning, TorrentInput};
use crate::types::{
    DisplayLanguage, DownloadOptions, ProgressSender, DEFAULT_METADATA_FLUSH_INTERVAL, VERSION,
};

verus! {

/// The number of bytes that a suffix stands for; `None` for a character that
/// is no suffix.
pub open spec fn suffix_bytes(c: char) -> Option<int> {
    if c == 'k' || c == 'K' {
        Some(1024)
    } else if c == 'm' || c == 'M' {
        Some(1024int * 1024)
    } else if c == 'g' || c == 'G' {
        Some(1024int * 1024 * 1024)
    } else {
        None
    }
}

/// A size without its suffix, and the number of bytes that the suffix stands
/// for.
pub open spec fn number_and_unit(size: Seq<char>) -> (Seq<char>, int) {
    if size.len() == 0 {
        (size, 1)
    } else {
        match suffix_bytes(size.last()) {
            Some(bytes) => (size.drop_last(), bytes),
            None => (size, 1),
        }
    }
}

/// The size that a text names, no larger than the largest number: digits, with
/// a suffix or without one.
pub open spec fn named_size(input: Seq<char>) -> Result<u64, ParseNumberError> {
    let (number, unit) = number_and_unit(trimmed(input));
    match parsed_number(number) {
        Ok(value) => Ok(
            if value * unit <= u64::MAX {
                (value * unit) as u64
            } else {
                u64::MAX
            },
        ),
        Err(error) => Err(error),
    }
}

/// A number without a suffix is its own size.
pub proof fn plain_number_is_its_size(n: u64)
    ensures
        named_size(decimal(n as nat)) == Ok::<u64, ParseNumberError>(n),
{
    let digits = decimal(n as nat);
    lemma_decimal_digits(n as nat);
    decimal_reads_back(n);
    assert(is_digit(digits[0]));
    assert(is_digit(digits[digits.len() - 1]));
    assert(trimmed(digits) == digits);
}

/// A number behind which a `k` or `K` stands is read as that many times 1024
/// bytes, with an `m` or `M` as that many times 1048576, and with a `g` or `G`
/// as that many times 1073741824, or as the largest number where that is more.
pub proof fn suffix_multiplies_the_number(number: Seq<char>, n: u64)
    requires
        parsed_number(number) == Ok::<u64, ParseNumberError>(n),
    ensures
        n * 1024 <= u64::MAX ==> named_size(number.push('k')) == Ok::<u64, ParseNumberError>(
            (n * 1024) as u64,
        ) && named_size(number.push('K')) == Ok::<u64, ParseNumberError>((n * 1024) as u64),
        n * 1024 > u64::MAX ==> named_size(number.push('k')) == Ok::<u64, ParseNumberError>(
            u64::MAX,
        ) && named_size(number.push('K')) == Ok::<u64, ParseNumberError>(u64::MAX),
        n * 1048576 <= u64::MAX ==> named_size(number.push('m')) == Ok::<u64, ParseNumberError>(
            (n * 1048576) as u64,
        ) && named_size(number.push('M')) == Ok::<u64, ParseNumberError>((n * 1048576) as u64),
        n * 1048576 > u64::MAX ==> named_size(number.push('m')) == Ok::<u64, ParseNumberError>(
            u64::MAX,
        ) && named_size(number.push('M')) == Ok::<u64, ParseNumberError>(u64::MAX),
        n * 1073741824 <= u64::MAX ==> named_size(number.push('g')) == Ok::<u64, ParseNumberError>(
            (n * 1073741824) as u64,
        ) && named_size(number.push('G')) == Ok::<u64, ParseNumberError>((n * 1073741824) as u64),
        n * 1073741824 > u64::MAX ==> named_size(number.push('g')) == Ok::<u64, ParseNumberError>(
            u64::MAX,
        ) && named_size(number.push('G')) == Ok::<u64, ParseNumberError>(u64::MAX),
{
    lemma_suffix_is_kept(number, n, 'k');
    lemma_suffix_is_kept(number, n, 'K');
    lemma_suffix_is_kept(number, n, 'm');
    lemma_suffix_is_kept(number, n, 'M');
    lemma_suffix_is_kept(number, n, 'g');
    lemma_suffix_is_kept(number, n, 'G');
}

proof fn lemma_suffix_is_kept(number: Seq<char>, n: u64, suffix: char)
    requires
        parsed_number(number) == Ok::<u64, ParseNumberError>(n),
        !is_space(suffix),
    ensures
        trimmed(number.push(suffix)) == number.push(suffix),
        number.push(suffix).drop_last() == number,
        number.push(suffix).last() == suffix,
{
    let size = number.push(suffix);
    assert(size.drop_last() =~= number);
    if number[0] != '+' && !is_digit(number[0]) {
        only_digits_are_numbers(number, 0);
    }
    assert(size[0] == number[0]);
    let none = Seq::<char>::empty();
    trimming_keeps_the_middle(none, size, none);
    assert(none + size + none =~= size);
}

/// The same of a number in decimal notation.
pub proof fn suffixed_decimal_is_its_size(n: u64)
    ensures
        n * 1024 <= u64::MAX ==> named_size(decimal(n as nat).push('k')) == Ok::<
            u64,
            ParseNumberError,
        >((n * 1024) as u64),
        n * 1048576 <= u64::MAX ==> named_size(decimal(n as nat).push('m')) == Ok::<
            u64,
            ParseNumberError,
        >((n * 1048576) as u64),
        n * 1073741824 <= u64::MAX ==> named_size(decimal(n as nat).push('g')) == Ok::<
            u64,
            ParseNumberError,
        >((n * 1073741824) as u64),
        n * 1024 > u64::MAX ==> named_size(decimal(n as nat).push('k')) == Ok::<
            u64,
            ParseNumberError,
        >(u64::MAX),
        n * 1048576 > u64::MAX ==> named_size(decimal(n as nat).push('m')) == Ok::<
            u64,
            ParseNumberError,
        >(u64::MAX),
        n * 1073741824 > u64::MAX ==> named_size(decimal(n as nat).push('g')) == Ok::<
            u64,
            ParseNumberError,
        >(u64::MAX),
        named_size(decimal(n as nat).push('K')) == named_size(decimal(n as nat).push('k')),
        named_size(decimal(n as nat).push('M')) == named_size(decimal(n as nat).push('m')),
        named_size(decimal(n as nat).push('G')) == named_size(decimal(n as nat).push('g')),
{
    decimal_reads_back(n);
    suffix_multiplies_the_number(decimal(n as nat), n);
}

/// No other sign than a digit, a blank or one of the suffixes may stand behind
/// a number.
pub proof fn other_suffixes_name_no_size(number: Seq<char>, n: u64, suffix: char)
    requires
        parsed_number(number) == Ok::<u64, ParseNumberError>(n),
        !is_space(suffix),
        !('0' <= suffix <= '9'),
        suffix != 'k' && suffix != 'K' && suffix != 'm' && suffix != 'M' && suffix != 'g' && suffix
            != 'G',
    ensures
        named_size(number.push(suffix)) is Err,
{
    lemma_suffix_is_kept(number, n, suffix);
    only_digits_are_numbers(number.push(suffix), number.len() as int);
}

/// Blanks around a size do not matter.
pub proof fn blanks_around_a_size_do_not_matter(
    before: Seq<char>,
    size: Seq<char>,
    after: Seq<char>,
)
    requires
        forall|i: int| 0 <= i < before.len() ==> is_space(#[trigger] before[i]),
        forall|i: int| 0 <= i < after.len() ==> is_space(#[trigger] after[i]),
        size.len() > 0,
        !is_space(size[0]),
        !is_space(size.last()),
    ensures
        named_size(before + size + after) == named_size(size),
{
    trimming_keeps_the_middle(before, size, after);
    let none = Seq::<char>::empty();
    trimming_keeps_the_middle(none, size, none);
    assert(none + size + none =~= size);
}

/// The size that a text is read as, or what is told of a text that names none.
pub open spec fn read_size(input: Seq<char>) -> Result<u64, Seq<char>> {
    if trimmed(input).len() == 0 {
        Err("大小不能为空"@)
    } else {
        match named_size(input) {
            Ok(size) => Ok(size),
            Err(error) => Err("大小格式无效 `"@ + input + "`："@ + error.sentence()),
        }
    }
}

/// A blank text is refused as empty, and any other that names no size as it
/// stands.
pub proof fn texts_without_a_size_are_refused(input: Seq<char>)
    ensures
        (forall|i: int| 0 <= i < input.len() ==> is_space(#[trigger] input[i])) ==> read_size(
            input,
        ) == Err::<u64, Seq<char>>("大小不能为空"@),
        trimmed(input).len() > 0 && named_size(input) is Err ==> (read_size(input) matches Err(
            text,
        ) && ("大小格式无效 `"@ + input + "`："@).is_prefix_of(text)),
{
    if forall|i: int| 0 <= i < input.len() ==> is_space(#[trigger] input[i]) {
        let none = Seq::<char>::empty();
        trimming_keeps_the_middle(input, none, none);
        assert(input + none + none =~= input);
    }
    if trimmed(input).len() > 0 && named_size(input) is Err {
        let head = "大小格式无效 `"@ + input + "`："@;
        let text = read_size(input)->Err_0;
        assert(text.take(head.len() as int) =~= head);
    }
}

/// A number is read as that many bytes, and as that many times 1024, 1048576 or
/// 1073741824 with a `k`, `m` or `g` of either case behind it, with blanks
/// around it or without, or as the largest number where that is more.
pub proof fn sizes_are_read(n: u64, before: Seq<char>, after: Seq<char>)
    requires
        forall|i: int| 0 <= i < before.len() ==> is_space(#[trigger] before[i]),
        forall|i: int| 0 <= i < after.len() ==> is_space(#[trigger] after[i]),
    ensures
        read_size(before + decimal(n as nat) + after) == Ok::<u64, Seq<char>>(n),
        n * 1024 <= u64::MAX ==> read_size(before + decimal(n as nat).push('k') + after) == Ok::<
            u64,
            Seq<char>,
        >((n * 1024) as u64),
        n * 1048576 <= u64::MAX ==> read_size(before + decimal(n as nat).push('m') + after) == Ok::<
            u64,
            Seq<char>,
        >((n * 1048576) as u64),
        n * 1073741824 <= u64::MAX ==> read_size(before + decimal(n as nat).push('g') + after)
            == Ok::<u64, Seq<char>>((n * 1073741824) as u64),
        n * 1024 > u64::MAX ==> read_size(before + decimal(n as nat).push('k') + after) == Ok::<
            u64,
            Seq<char>,
        >(u64::MAX),
        n * 1048576 > u64::MAX ==> read_size(before + decimal(n as nat).push('m') + after) == Ok::<
            u64,
            Seq<char>,
        >(u64::MAX),
        n * 1073741824 > u64::MAX ==> read_size(before + decimal(n as nat).push('g') + after)
            == Ok::<u64, Seq<char>>(u64::MAX),
        read_size(before + decimal(n as nat).push('K') + after) == read_size(
            before + decimal(n as nat).push('k') + after,
        ),
        read_size(before + decimal(n as nat).push('M') + after) == read_size(
            before + decimal(n as nat).push('m') + after,
        ),
        read_size(before + decimal(n as nat).push('G') + after) == read_size(
            before + decimal(n as nat).push('g') + after,
        ),
{
    let digits = decimal(n as nat);
    plain_number_is_its_size(n);
    suffixed_decimal_is_its_size(n);
    lemma_decimal_digits(n as nat);
    assert(is_digit(digits[0]));
    assert(is_digit(digits[digits.len() - 1]));
    lemma_blanks_around(before, digits, after);
    lemma_blanks_around(before, digits.push('k'), after);
    lemma_blanks_around(before, digits.push('m'), after);
    lemma_blanks_around(before, digits.push('g'), after);
    lemma_blanks_around(before, digits.push('K'), after);
    lemma_blanks_around(before, digits.push('M'), after);
    lemma_blanks_around(before, digits.push('G'), after);
}

proof fn lemma_blanks_around(before: Seq<char>, size: Seq<char>, after: Seq<char>)
    requires
        forall|i: int| 0 <= i < before.len() ==> is_space(#[trigger] before[i]),
        forall|i: int| 0 <= i < after.len() ==> is_space(#[trigger] after[i]),
        size.len() > 0,
        !is_space(size[0]),
        !is_space(size.last()),
    ensures
        named_size(before + size + after) == named_size(size),
        trimmed(before + size + after).len() > 0,
{
    blanks_around_a_size_do_not_matter(before, size, after);
    trimming_keeps_the_middle(before, size, after);
}

/// Reads a size.
pub fn parse_size(input: &str) -> (r: Result<u64, String>)
    ensures
        match r {
            Ok(size) => read_size(input@) == Ok::<u64, Seq<char>>(size),
            Err(text) => read_size(input@) == Err::<u64, Seq<char>>(text@),
        },
{
    let size = trim(input);
    let chars = chars_of(size.as_str());
    let len: usize = chars.len();
    if len == 0 {
        return Err("大小不能为空".to_owned());
    }
    let last: char = chars[len - 1];
    let unit: u64 = if last == 'k' || last == 'K' {
        1024
    } else if last == 'm' || last == 'M' {
        1024 * 1024
    } else if last == 'g' || last == 'G' {
        1024 * 1024 * 1024
    } else {
        1
    };
    let number = text_of(
        chars.as_slice(),
        0,
        if unit > 1 {
            len - 1
        } else {
            len
        },
    );
    proof {
        let trimmed_input = trimmed(input@);
        if unit > 1 {
            assert(number@ =~= trimmed_input.drop_last());
        } else {
            assert(number@ =~= trimmed_input);
        }
    }
    match parse_number(number.as_str()) {
        Ok(value) => {
            match value.checked_mul(unit) {
                Some(size) => Ok(size),
                None => Ok(u64::MAX),
            }
        },
        Err(error) => {
            let mut text = "大小格式无效 `".to_owned();
            text.append(input);
            text.append("`：");
            text.append(error.message());
            Err(text)
        },
    }
}

/// The name and the value of a field: what stands before and behind the first
/// colon, without the blanks around it.
pub open spec fn is_field(input: Seq<char>, colon: int, name: Seq<char>, value: Seq<char>) -> bool {
    &&& 0 <= colon < input.len()
    &&& input[colon] == ':'
    &&& forall|i: int| 0 <= i < colon ==> input[i] != ':'
    &&& name == trimmed(input.take(colon))
    &&& value == trimmed(input.skip(colon + 1))
}

/// A field is cut at its first colon: a name that holds none reads as the name,
/// and all that follows as the value, further colons included.
pub proof fn field_is_cut_at_its_first_colon(
    name: Seq<char>,
    value: Seq<char>,
    colon: int,
    read_name: Seq<char>,
    read_value: Seq<char>,
)
    requires
        !name.contains(':'),
        is_field(name.push(':') + value, colon, read_name, read_value),
    ensures
        colon == name.len(),
        read_name == trimmed(name),
        read_value == trimmed(value),
{
    let input = name.push(':') + value;
    assert(input[name.len() as int] == ':');
    if colon < name.len() {
        assert(name[colon] == ':');
    }
    assert(input.take(colon) =~= name);
    assert(input.skip(colon + 1) =~= value);
}

/// The text is read as a header field of this name and value, or refused for
/// this reason.
pub open spec fn is_read_as(
    input: Seq<char>,
    read: Result<(Seq<char>, Seq<char>), Seq<char>>,
) -> bool {
    match read {
        Ok((name, value)) => name.len() > 0 && value.len() > 0 && exists|colon: int|
            #[trigger] is_field(input, colon, name, value),
        Err(text) => if input.contains(':') {
            &&& text == "请求头名称和值不能为空"@
            &&& exists|colon: int, name: Seq<char>, value: Seq<char>|
                #[trigger] is_field(input, colon, name, value) && (name.len() == 0 || value.len()
                    == 0)
        } else {
            text == "请求头格式应为 名称: 值"@
        },
    }
}

/// A header field is read as what stands before and behind its first colon,
/// without the blanks around either; one with nothing but blanks on either side
/// is refused, and so is one without a colon.
pub proof fn headers_are_read(
    name: Seq<char>,
    value: Seq<char>,
    read: Result<(Seq<char>, Seq<char>), Seq<char>>,
)
    requires
        !name.contains(':'),
    ensures
        is_read_as(name.push(':') + value, read) && trimmed(name).len() > 0 && trimmed(value).len()
            > 0 ==> read == Ok::<(Seq<char>, Seq<char>), Seq<char>>(
            (trimmed(name), trimmed(value)),
        ),
        is_read_as(name.push(':') + value, read) && (trimmed(name).len() == 0 || trimmed(
            value,
        ).len() == 0) ==> read == Err::<(Seq<char>, Seq<char>), Seq<char>>(
            "请求头名称和值不能为空"@,
        ),
        is_read_as(name, read) ==> read == Err::<(Seq<char>, Seq<char>), Seq<char>>(
            "请求头格式应为 名称: 值"@,
        ),
{
    let input = name.push(':') + value;
    assert(input[name.len() as int] == ':');
    if is_read_as(input, read) {
        match read {
            Ok((read_name, read_value)) => {
                let colon = choose|colon: int| #[trigger]
                    is_field(input, colon, read_name, read_value);
                field_is_cut_at_its_first_colon(name, value, colon, read_name, read_value);
            },
            Err(_) => {
                let (colon, n, v) = choose|colon: int, n: Seq<char>, v: Seq<char>| #[trigger]
                    is_field(input, colon, n, v) && (n.len() == 0 || v.len() == 0);
                field_is_cut_at_its_first_colon(name, value, colon, n, v);
            },
        }
    }
    if is_read_as(name, read) {
        if let Ok((read_name, read_value)) = read {
            let colon = choose|colon: int| #[trigger] is_field(name, colon, read_name, read_value);
            assert(name.contains(name[colon]));
        }
    }
}

/// What a header field was read as.
pub open spec fn field_view(read: Result<(String, String), String>) -> Result<
    (Seq<char>, Seq<char>),
    Seq<char>,
> {
    match read {
        Ok((name, value)) => Ok((name@, value@)),
        Err(text) => Err(text@),
    }
}

/// Reads a header field.
pub fn parse_header(input: &str) -> (r: Result<(String, String), String>)
    ensures
        is_read_as(input@, field_view(r)),
{
    let chars = chars_of(input);
    let len: usize = chars.len();
    let mut colon: usize = 0;
    while colon < len && chars[colon] != ':'
        invariant
            chars@ == input@,
            colon <= len == chars@.len(),
            forall|i: int| 0 <= i < colon ==> input@[i] != ':',
        decreases len - colon,
    {
        colon += 1;
    }
    if colon == len {
        return Err("请求头格式应为 名称: 值".to_owned());
    }
    assert(input@[colon as int] == ':');
    let name = trim_range(chars.as_slice(), 0, colon);
    let value = trim_range(chars.as_slice(), colon + 1, len);
    proof {
        assert(input@.subrange(0, colon as int) =~= input@.take(colon as int));
        assert(input@.subrange(colon + 1, len as int) =~= input@.skip(colon + 1));
        assert(is_field(input@, colon as int, name@, value@));
    }
    if chars_of(name.as_str()).len() == 0 || chars_of(value.as_str()).len() == 0 {
        return Err("请求头名称和值不能为空".to_owned());
    }
    Ok((name, value))
}

/// The text names a torrent: it is asked to be taken for one, it is a magnet
/// link, or it is no web address and has the ending of a torrent file.
pub open spec fn is_torrent(source: Seq<char>, forced: bool) -> bool {
    ||| forced
    ||| "magnet:"@.is_prefix_of(source)
    ||| !"http://"@.is_prefix_of(source) && !"https://"@.is_prefix_of(source)
        && ".torrent"@.is_suffix_of(source)
}

/// What a source is taken for.
pub open spec fn classified(source: String, torrent: bool) -> DownloadSource {
    if is_torrent(source@, torrent) {
        DownloadSource::Torrent(input_of(source))
    } else {
        DownloadSource::Http(source)
    }
}

/// Without the flag for torrents, a web address is fetched as a file whatever
/// it ends in; a magnet link is a torrent, and so is any other source that ends
/// in `.torrent`; and the rest are files of the web. With the flag, every source
/// is a torrent.
pub proof fn sources_are_told_apart(source: String)
    ensures
        "http://"@.is_prefix_of(source@) ==> classified(source, false) == DownloadSource::Http(
            source,
        ),
        "https://"@.is_prefix_of(source@) ==> classified(source, false) == DownloadSource::Http(
            source,
        ),
        "magnet:"@.is_prefix_of(source@) ==> classified(source, false) == DownloadSource::Torrent(
            TorrentInput::Magnet(source),
        ),
        !"http://"@.is_prefix_of(source@) && !"https://"@.is_prefix_of(source@)
            && !"magnet:"@.is_prefix_of(source@) && ".torrent"@.is_suffix_of(source@)
            ==> classified(source, false) == DownloadSource::Torrent(
            TorrentInput::TorrentFile(source),
        ),
        !"magnet:"@.is_prefix_of(source@) && !".torrent"@.is_suffix_of(source@) ==> classified(
            source,
            false,
        ) == DownloadSource::Http(source),
        classified(source, true) is Torrent,
        "http://"@.is_prefix_of(source@) || "https://"@.is_prefix_of(source@) ==> classified(
            source,
            true,
        ) == DownloadSource::Torrent(TorrentInput::TorrentUrl(source)),
{
    sources_are_told_by_their_beginning(source);
    reveal_strlit("magnet:");
    reveal_strlit("http://");
    reveal_strlit("https://");
    if "magnet:"@.is_prefix_of(source@) {
        assert(source@[0] == "magnet:"@[0]);
    }
    if "http://"@.is_prefix_of(source@) {
        assert(source@[0] == "http://"@[0]);
    }
    if "https://"@.is_prefix_of(source@) {
        assert(source@[0] == "https://"@[0]);
    }
}

/// Tells torrents from files of the web.
pub fn classify_source(source: String, torrent: bool) -> (r: DownloadSource)
    ensures
        r == classified(source, torrent),
        !torrent && ("http://"@.is_prefix_of(source@) || "https://"@.is_prefix_of(source@)) ==> r
            == DownloadSource::Http(source),
        torrent || "magnet:"@.is_prefix_of(source@) ==> r is Torrent,
{
    proof {
        sources_are_told_apart(source);
    }
    if torrent || starts_with(source.as_str(), "magnet:") || (!starts_with(
        source.as_str(),
        "http://",
    ) && !starts_with(source.as_str(), "https://") && ends_with(source.as_str(), ".torrent")) {
        DownloadSource::Torrent(TorrentInput::from_source(source))
    } else {
        DownloadSource::Http(source)
    }
}

/// The name of the file that an address ends in: the last part of its path,
/// unless that is empty.
pub open spec fn last_segment(url: Option<UrlView>) -> Option<Seq<char>> {
    match url {
        Some(view) => match view.segments {
            Some(parts) => if parts.len() > 0 && parts.last().len() > 0 {
                Some(parts.last())
            } else {
                None
            },
            None => None,
        },
        None => None,
    }
}

/// The view of an address, where there is one.
pub open spec fn parts_view(parts: Option<UrlParts>) -> Option<UrlView> {
    match parts {
        Some(p) => Some(p@),
        None => None,
    }
}

/// The name of the file that an address ends in.
pub fn name_in_url(parts: &Option<UrlParts>) -> (name: Option<String>)
    ensures
        string_view(name) == last_segment(parts_view(*parts)),
{
    if let Some(url) = parts {
        if let Some(segments) = &url.segments {
            let n: usize = segments.len();
            if n > 0 {
                let last = segments[n - 1].clone();
                if chars_of(last.as_str()).len() > 0 {
                    return Some(last);
                }
            }
        }
    }
    None
}

/// Where a download goes when nothing is said: the working directory for a
/// torrent, and else a file named as the address is.
pub open spec fn default_place(source: DownloadSource, address: Option<UrlView>) -> Seq<char> {
    match source {
        DownloadSource::Torrent(_) => "."@,
        DownloadSource::Http(_) => match last_segment(address) {
            Some(name) => name,
            None => "下载文件.bin"@,
        },
    }
}

/// A file of the web is named by what stands behind the last slash of the path
/// of its address, and has a name of its own where nothing stands there or the
/// address cannot be parsed; a torrent goes to the working directory.
pub proof fn files_are_named_by_their_address(
    url: String,
    input: TorrentInput,
    address: UrlView,
    before: Seq<Seq<char>>,
    name: Seq<char>,
)
    requires
        address.segments == Some(before.push(name)),
    ensures
        name.len() > 0 ==> default_place(DownloadSource::Http(url), Some(address)) == name,
        name.len() == 0 ==> default_place(DownloadSource::Http(url), Some(address))
            == "下载文件.bin"@,
        default_place(DownloadSource::Http(url), None) == "下载文件.bin"@,
        default_place(DownloadSource::Torrent(input), Some(address)) == "."@,
        default_place(DownloadSource::Torrent(input), None) == "."@,
{
    assert(before.push(name).last() == name);
}

/// Where a download goes when nothing is said: the working directory for a
/// torrent, and else a file named as the address is.
pub fn default_output_path(source: &DownloadSource, raw_source: &str) -> (path: String)
    ensures
        path@ == default_place(*source, parsed_url(raw_source@)),
{
    match source {
        DownloadSource::Torrent(_) => ".".to_owned(),
        DownloadSource::Http(_) => {
            let parts = parse_url(raw_source);
            match name_in_url(&parts) {
                Some(name) => name,
                None => "下载文件.bin".to_owned(),
            }
        },
    }
}

/// The character that stands for six bits in the standard Base64 alphabet.
pub open spec fn base64_char(bits: int) -> char {
    if bits < 26 {
        (0x41 + bits) as char
    } else if bits < 52 {
        (0x61 + bits - 26) as char
    } else if bits < 62 {
        (0x30 + bits - 52) as char
    } else if bits == 62 {
        '+'
    } else {
        '/'
    }
}

/// Bytes in the standard Base64 notation: four characters for each three bytes,
/// with `=` for those that a last group of one or two bytes leaves over.
pub open spec fn base64_text(bytes: Seq<u8>) -> Seq<char>
    decreases bytes.len(),
{
    if bytes.len() == 0 {
        Seq::empty()
    } else {
        let a = bytes[0] as int;
        let b = if bytes.len() > 1 { bytes[1] as int } else { 0 };
        let c = if bytes.len() > 2 { bytes[2] as int } else { 0 };
        let group = seq![
            base64_char(a / 4),
            base64_char(a % 4 * 16 + b / 16),
            if bytes.len() > 1 { base64_char(b % 16 * 4 + c / 64) } else { '=' },
            if bytes.len() > 2 { base64_char(c % 64) } else { '=' },
        ];
        group + base64_text(bytes.skip(if bytes.len() > 3 { 3 } else { bytes.len() as int }))
    }
}

/// `base64::engine::general_purpose::STANDARD.encode`: the UTF-8 bytes of the
/// text in the standard Base64 notation, padded.
#[verifier::external_body]
fn encode_base64(text: &str) -> (encoded: String)
    ensures
        encoded@ == base64_text(encode_utf8(text@)),
{
    base64::engine::general_purpose::STANDARD.encode(text)
}

/// What a list of header fields reads.
pub open spec fn fields_view(fields: Seq<(String, String)>) -> Seq<(Seq<char>, Seq<char>)> {
    fields.map_values(|field: (String, String)| (field.0@, field.1@))
}

/// The fields that the options for a cookie, a bearer token and encoded
/// credentials add.
pub open spec fn added_fields(
    cookie: Option<Seq<char>>,
    bearer_token: Option<Seq<char>>,
    credentials: Option<Seq<char>>,
) -> Seq<(Seq<char>, Seq<char>)> {
    let first = match cookie {
        Some(value) => seq![("Cookie"@, value)],
        None => Seq::empty(),
    };
    let second = match bearer_token {
        Some(token) => seq![("Authorization"@, "Bearer "@ + token)],
        None => Seq::empty(),
    };
    let third = match credentials {
        Some(encoded) => seq![("Authorization"@, "Basic "@ + encoded)],
        None => Seq::empty(),
    };
    first + second + third
}

/// A cookie, a bearer token and credentials each add one field, in this order,
/// and what is not given adds none.
pub proof fn each_option_adds_its_field(
    cookie: Seq<char>,
    token: Seq<char>,
    credentials: Seq<char>,
)
    ensures
        added_fields(None, None, None) == Seq::<(Seq<char>, Seq<char>)>::empty(),
        added_fields(Some(cookie), None, None) == seq![("Cookie"@, cookie)],
        added_fields(None, Some(token), None) == seq![("Authorization"@, "Bearer "@ + token)],
        added_fields(None, None, Some(credentials)) == seq![
            ("Authorization"@, "Basic "@ + credentials),
        ],
        added_fields(Some(cookie), Some(token), None) == seq![
            ("Cookie"@, cookie),
            ("Authorization"@, "Bearer "@ + token),
        ],
        added_fields(Some(cookie), None, Some(credentials)) == seq![
            ("Cookie"@, cookie),
            ("Authorization"@, "Basic "@ + credentials),
        ],
        added_fields(None, Some(token), Some(credentials)) == seq![
            ("Authorization"@, "Bearer "@ + token),
            ("Authorization"@, "Basic "@ + credentials),
        ],
        added_fields(Some(cookie), Some(token), Some(credentials)) == seq![
            ("Cookie"@, cookie),
            ("Authorization"@, "Bearer "@ + token),
            ("Authorization"@, "Basic "@ + credentials),
        ],
{
    assert(added_fields(None, None, None) =~= Seq::<(Seq<char>, Seq<char>)>::empty());
    assert(added_fields(Some(cookie), None, None) =~= seq![("Cookie"@, cookie)]);
    assert(added_fields(None, Some(token), None) =~= seq![
        ("Authorization"@, "Bearer "@ + token),
    ]);
    assert(added_fields(None, None, Some(credentials)) =~= seq![
        ("Authorization"@, "Basic "@ + credentials),
    ]);
    assert(added_fields(Some(cookie), Some(token), None) =~= seq![
        ("Cookie"@, cookie),
        ("Authorization"@, "Bearer "@ + token),
    ]);
    assert(added_fields(Some(cookie), None, Some(credentials)) =~= seq![
        ("Cookie"@, cookie),
        ("Authorization"@, "Basic "@ + credentials),
    ]);
    assert(added_fields(None, Some(token), Some(credentials)) =~= seq![
        ("Authorization"@, "Bearer "@ + token),
        ("Authorization"@, "Basic "@ + credentials),
    ]);
    assert(added_fields(Some(cookie), Some(token), Some(credentials)) =~= seq![
        ("Cookie"@, cookie),
        ("Authorization"@, "Bearer "@ + token),
        ("Authorization"@, "Basic "@ + credentials),
    ]);
}

/// Each three bytes are written as four characters, and what is left over as
/// four more, so that the length of the text is fixed by that of the bytes.
pub proof fn base64_text_has_four_for_three(bytes: Seq<u8>)
    ensures
        base64_text(bytes).len() == (bytes.len() + 2) / 3 * 4,
        bytes.len() >= 3 ==> base64_text(bytes) == base64_text(bytes.take(3)) + base64_text(
            bytes.skip(3),
        ),
    decreases bytes.len(),
{
    assert(base64_text(Seq::<u8>::empty()) =~= Seq::<char>::empty());
    if bytes.len() > 3 {
        base64_text_has_four_for_three(bytes.skip(3));
        let head = bytes.take(3);
        assert(head.skip(3) =~= Seq::<u8>::empty());
        reveal_with_fuel(base64_text, 2);
        assert(base64_text(bytes) =~= base64_text(head) + base64_text(bytes.skip(3)));
    } else if bytes.len() > 0 {
        assert(bytes.skip(bytes.len() as int) =~= Seq::<u8>::empty());
        if bytes.len() == 3 {
            assert(bytes.take(3) =~= bytes);
            assert(base64_text(bytes.skip(3)) =~= Seq::<char>::empty());
            assert(base64_text(bytes) =~= base64_text(bytes.take(3)) + base64_text(bytes.skip(3)));
        }
    }
}

fn push_field(fields: &mut Vec<(String, String)>, name: &str, prefix: &str, value: &str)
    ensures
        fields_view(final(fields)@) == fields_view(old(fields)@).push((name@, prefix@ + value@)),
{
    let mut text = prefix.to_owned();
    text.append(value);
    fields.push((name.to_owned(), text));
    assert(fields_view(fields@) =~= fields_view(old(fields)@).push((name@, prefix@ + value@)));
}

/// Adds the fields for a cookie, a bearer token and encoded credentials to
/// those that were given one by one.
pub fn headers_with(
    headers: Vec<(String, String)>,
    cookie: &Option<String>,
    bearer_token: &Option<String>,
    credentials: &Option<String>,
) -> (fields: Vec<(String, String)>)
    ensures
        fields_view(fields@) == fields_view(headers@) + added_fields(
            string_view(*cookie),
            string_view(*bearer_token),
            string_view(*credentials),
        ),
{
    let mut fields = headers;
    if let Some(value) = cookie {
        push_field(&mut fields, "Cookie", "", value.as_str());
        proof {
            reveal_strlit("");
            assert(""@ + value@ =~= value@);
        }
    }
    if let Some(token) = bearer_token {
        push_field(&mut fields, "Authorization", "Bearer ", token.as_str());
    }
    if let Some(encoded) = credentials {
        push_field(&mut fields, "Authorization", "Basic ", encoded.as_str());
    }
    assert(fields_view(fields@) =~= fields_view(headers@) + added_fields(
        string_view(*cookie),
        string_view(*bearer_token),
        string_view(*credentials),
    ));
    fields
}

/// The header fields of every request: those that were given one by one, and
/// those for the cookie, the bearer token and the user name and password.
pub fn request_headers(
    headers: Vec<(String, String)>,
    cookie: &Option<String>,
    bearer_token: &Option<String>,
    basic_auth: &Option<String>,
) -> (fields: Vec<(String, String)>)
    ensures
        fields_view(fields@) == fields_view(headers@) + added_fields(
            string_view(*cookie),
            string_view(*bearer_token),
            match *basic_auth {
                Some(auth) => Some(base64_text(encode_utf8(auth@))),
                None => None,
            },
        ),
{
    let credentials = match basic_auth {
        Some(auth) => Some(encode_base64(auth.as_str())),
        None => None,
    };
    headers_with(headers, cookie, bearer_token, &credentials)
}

/// The options of the command line that a download depends on.
#[derive(Debug)]
pub struct CliOptions {
    pub connections: Option<usize>,
    pub chunk_size: u64,
    pub no_resume: bool,
    pub overwrite: bool,
    pub limit_rate: Option<u64>,
    pub proxy: Option<String>,
    /// The result is printed as JSON, and no progress is shown.
    pub json: bool,
}

/// The options of the download that the command line asks for.
pub open spec fn asked_options(
    cli: CliOptions,
    headers: Vec<(String, String)>,
    selected_files: Option<Vec<usize>>,
    progress: ProgressSender,
    lang: Lang,
    user_agent: String,
) -> DownloadOptions {
    DownloadOptions {
        connections: cli.connections,
        chunk_size: cli.chunk_size,
        resume: !cli.no_resume,
        overwrite: cli.overwrite,
        user_agent,
        metadata_flush_interval: DEFAULT_METADATA_FLUSH_INTERVAL,
        progress: if cli.json {
            None
        } else {
            Some(progress)
        },
        only_files: selected_files,
        rate_limit: cli.limit_rate,
        headers,
        proxy: cli.proxy,
        language: if lang == Lang::Zh {
            DisplayLanguage::Zh
        } else {
            DisplayLanguage::En
        },
    }
}

/// Each option of the command line reaches the download: a download may be
/// resumed unless that was forbidden, progress is shown unless JSON was asked
/// for, and everything else is as it was named.
pub proof fn options_reach_the_download(
    cli: CliOptions,
    headers: Vec<(String, String)>,
    selected_files: Option<Vec<usize>>,
    progress: ProgressSender,
    lang: Lang,
    user_agent: String,
)
    ensures
        ({
            let options = asked_options(cli, headers, selected_files, progress, lang, user_agent);
            &&& options.resume <==> !cli.no_resume
            &&& options.overwrite <==> cli.overwrite
            &&& options.progress is None <==> cli.json
            &&& !cli.json ==> options.progress == Some(progress)
            &&& options.connections == cli.connections
            &&& options.chunk_size == cli.chunk_size
            &&& options.rate_limit == cli.limit_rate
            &&& options.proxy == cli.proxy
            &&& options.headers == headers
            &&& options.only_files == selected_files
            &&& options.metadata_flush_interval == 5_000_000_000
            &&& options.language == DisplayLanguage::Zh <==> lang == Lang::Zh
            &&& options.language == DisplayLanguage::En <==> lang == Lang::En
            &&& options.user_agent == user_agent
        }),
{
}

/// The options of the download that the command line asks for.
pub fn download_options(
    cli: CliOptions,
    headers: Vec<(String, String)>,
    selected_files: Option<Vec<usize>>,
    progress: ProgressSender,
    lang: Lang,
) -> (options: DownloadOptions)
    ensures
        options == asked_options(
            cli,
            headers,
            selected_files,
            progress,
            lang,
            options.user_agent,
        ),
        options.user_agent@ == "dl/"@ + VERSION@,
{
    let mut options = DownloadOptions::default();
    options.connections = cli.connections;
    options.chunk_size = cli.chunk_size;
    options.resume = !cli.no_resume;
    options.overwrite = cli.overwrite;
    options.only_files = selected_files;
    options.rate_limit = cli.limit_rate;
    options.headers = headers;
    options.proxy = cli.proxy;
    options.language = if lang == Lang::Zh {
        DisplayLanguage::Zh
    } else {
        DisplayLanguage::En
    };
    if !cli.json {
        options.progress = Some(progress);
    }
    options
}

} // verus!
