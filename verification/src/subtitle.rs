//! Subtitles of a lecture and the text formats they are written in.
use vstd::prelude::*;
use vstd::string::StringExecFns;

verus! {

/// One caption: when it is shown, in milliseconds from the start of the
/// recording, its text, and its translation where there is one.
#[derive(Clone, Debug)]
pub struct SubtitleEntry {
    pub start_ms: u64,
    pub end_ms: u64,
    pub text: String,
    pub translation: Option<String>,
}

/// What a caption holds, with its texts as sequences of characters.
pub struct Caption {
    pub start_ms: nat,
    pub end_ms: nat,
    pub text: Seq<char>,
    pub translation: Option<Seq<char>>,
}

impl View for SubtitleEntry {
    type V = Caption;

    open spec fn view(&self) -> Caption {
        Caption {
            start_ms: self.start_ms as nat,
            end_ms: self.end_ms as nat,
            text: self.text@,
            translation: match self.translation {
                Some(translation) => Some(translation@),
                None => None,
            },
        }
    }
}

/// The captions of one lecture, in the order in which they are shown.
#[derive(Clone, Debug)]
pub struct Subtitle {
    pub entries: Vec<SubtitleEntry>,
}

/// What the captions hold, in order.
pub open spec fn captions(entries: Seq<SubtitleEntry>) -> Seq<Caption> {
    Seq::new(entries.len(), |i: int| entries[i]@)
}

impl View for Subtitle {
    type V = Seq<Caption>;

    open spec fn view(&self) -> Seq<Caption> {
        captions(self.entries@)
    }
}

/// One item of the caption list that the lecture service answers with, as far
/// as its fields were present and of the expected kind. Times are in
/// milliseconds.
#[derive(Clone, Debug)]
pub struct CaptionItem {
    pub begin_ms: Option<u64>,
    pub end_ms: Option<u64>,
    pub text: Option<String>,
    pub trans_text: Option<String>,
}

/// The answer of the lecture service to a request for captions: its status
/// code, its message, and the caption list of its first entry, each as far as
/// it was present and of the expected kind.
#[derive(Clone, Debug)]
pub struct CaptionResponse {
    pub code: Option<i64>,
    pub msg: Option<String>,
    pub all_content: Option<Vec<CaptionItem>>,
}

/// The service's refusal, with the text that reports it.
#[derive(Clone, Debug)]
pub struct ApiError {
    pub message: String,
}

/// The caption that an item stands for: none where the item has no text or an
/// empty one; else the item's text and times, a missing time taken as 0, and
/// its translation unless that is missing or empty.
pub open spec fn item_caption(item: CaptionItem) -> Option<Caption> {
    match item.text {
        Some(text) => if text@.len() > 0 {
            Some(
                Caption {
                    start_ms: match item.begin_ms {
                        Some(ms) => ms as nat,
                        None => 0,
                    },
                    end_ms: match item.end_ms {
                        Some(ms) => ms as nat,
                        None => 0,
                    },
                    text: text@,
                    translation: match item.trans_text {
                        Some(translation) => if translation@.len() > 0 {
                            Some(translation@)
                        } else {
                            None
                        },
                        None => None,
                    },
                },
            )
        } else {
            None
        },
        None => None,
    }
}

/// The captions that the items stand for, in order.
pub open spec fn captions_of(items: Seq<CaptionItem>) -> Seq<Caption>
    decreases items.len(),
{
    if items.len() == 0 {
        Seq::empty()
    } else {
        let rest = captions_of(items.drop_last());
        match item_caption(items.last()) {
            Some(caption) => rest.push(caption),
            None => rest,
        }
    }
}

impl CaptionResponse {
    /// Whether the service reports success: it does unless it gives a status
    /// code other than 0.
    pub open spec fn accepted(self) -> bool {
        match self.code {
            Some(code) => code == 0,
            None => true,
        }
    }

    /// The service's message, or `Unknown error` where it gave none.
    pub open spec fn complaint(self) -> Seq<char> {
        match self.msg {
            Some(msg) => msg@,
            None => "Unknown error"@,
        }
    }

    /// The items of the caption list, none where the list is missing.
    pub open spec fn items(self) -> Seq<CaptionItem> {
        match self.all_content {
            Some(items) => items@,
            None => Seq::empty(),
        }
    }
}

/// The character of a decimal digit.
pub open spec fn digit(d: nat) -> char
    recommends
        d < 10,
{
    seq!['0', '1', '2', '3', '4', '5', '6', '7', '8', '9'][d as int]
}

/// A number in decimal, without leading zeros.
pub open spec fn decimal(n: nat) -> Seq<char>
    decreases n,
{
    if n < 10 {
        seq![digit(n)]
    } else {
        decimal(n / 10).push(digit(n % 10))
    }
}

/// A number in decimal, with zeros in front where it has fewer than `width`
/// digits.
pub open spec fn zero_padded(n: nat, width: nat) -> Seq<char> {
    let digits = decimal(n);
    if digits.len() >= width {
        digits
    } else {
        Seq::new((width - digits.len()) as nat, |i: int| '0') + digits
    }
}

/// Minutes and seconds of a time, as `MM:SS`. Parts of a second are dropped,
/// and the minutes are not wrapped at the hour.
pub open spec fn clock_short(ms: nat) -> Seq<char> {
    let seconds = ms / 1000;
    zero_padded(seconds / 60, 2) + seq![':'] + zero_padded(seconds % 60, 2)
}

/// Hours, minutes, seconds and milliseconds of a time, as `HH:MM:SS` followed
/// by `mark` and three digits.
pub open spec fn clock_full(ms: nat, mark: char) -> Seq<char> {
    let seconds = ms / 1000;
    let minutes = seconds / 60;
    zero_padded(minutes / 60, 2) + seq![':'] + zero_padded(minutes % 60, 2) + seq![':']
        + zero_padded(seconds % 60, 2) + seq![mark] + zero_padded(ms % 1000, 3)
}

/// The parts one after another, with `separator` between each two.
pub open spec fn joined(parts: Seq<Seq<char>>, separator: Seq<char>) -> Seq<char>
    decreases parts.len(),
{
    if parts.len() == 0 {
        Seq::empty()
    } else if parts.len() == 1 {
        parts[0]
    } else {
        joined(parts.drop_last(), separator) + separator + parts.last()
    }
}

/// The views of the strings, in order.
pub open spec fn texts(parts: Seq<String>) -> Seq<Seq<char>> {
    Seq::new(parts.len(), |i: int| parts[i]@)
}

/// Calls `String::push`, which appends one character to the string.
#[verifier::external_body]
fn push_char(out: &mut String, c: char)
    ensures
        final(out)@ == old(out)@.push(c),
{
    out.push(c);
}

/// The character of a decimal digit.
fn digit_char(d: u8) -> (c: char)
    requires
        d < 10,
    ensures
        c == digit(d as nat),
{
    match d {
        0 => '0',
        1 => '1',
        2 => '2',
        3 => '3',
        4 => '4',
        5 => '5',
        6 => '6',
        7 => '7',
        8 => '8',
        _ => '9',
    }
}

/// Appends a number in decimal.
fn push_decimal(out: &mut String, n: u64)
    ensures
        final(out)@ == old(out)@ + decimal(n as nat),
    decreases n,
{
    if n >= 10 {
        push_decimal(out, n / 10);
    }
    push_char(out, digit_char((n % 10) as u8));
    assert(out@ =~= old(out)@ + decimal(n as nat));
}

/// A number below ten has one digit, one below a hundred at most two, and
/// every other number at least three.
proof fn lemma_decimal_len(n: nat)
    ensures
        n < 10 ==> decimal(n).len() == 1,
        10 <= n < 100 ==> decimal(n).len() == 2,
        100 <= n < 1000 ==> decimal(n).len() == 3,
        1000 <= n ==> decimal(n).len() > 3,
{
    reveal_with_fuel(decimal, 5);
}

/// Appends a number in decimal with at least two digits.
fn push_two_digits(out: &mut String, n: u64)
    ensures
        final(out)@ == old(out)@ + zero_padded(n as nat, 2),
{
    proof {
        lemma_decimal_len(n as nat);
    }
    if n < 10 {
        push_char(out, '0');
    }
    push_decimal(out, n);
    assert(out@ =~= old(out)@ + zero_padded(n as nat, 2));
}

/// Appends a number in decimal with at least three digits.
fn push_three_digits(out: &mut String, n: u64)
    ensures
        final(out)@ == old(out)@ + zero_padded(n as nat, 3),
{
    proof {
        lemma_decimal_len(n as nat);
    }
    if n < 100 {
        push_char(out, '0');
    }
    if n < 10 {
        push_char(out, '0');
    }
    push_decimal(out, n);
    assert(out@ =~= old(out)@ + zero_padded(n as nat, 3));
}

/// Appends a time as `HH:MM:SS`, `mark` and the milliseconds.
fn push_clock_full(out: &mut String, total_ms: u64, mark: char)
    ensures
        final(out)@ == old(out)@ + clock_full(total_ms as nat, mark),
{
    let ms = total_ms % 1000;
    let total_secs = total_ms / 1000;
    let secs = total_secs % 60;
    let total_mins = total_secs / 60;
    let mins = total_mins % 60;
    let hours = total_mins / 60;
    push_two_digits(out, hours);
    push_char(out, ':');
    push_two_digits(out, mins);
    push_char(out, ':');
    push_two_digits(out, secs);
    push_char(out, mark);
    push_three_digits(out, ms);
    assert(out@ =~= old(out)@ + clock_full(total_ms as nat, mark));
}

/// Appends a time as `MM:SS`.
fn push_clock_short(out: &mut String, total_ms: u64)
    ensures
        final(out)@ == old(out)@ + clock_short(total_ms as nat),
{
    let total_secs = total_ms / 1000;
    push_two_digits(out, total_secs / 60);
    push_char(out, ':');
    push_two_digits(out, total_secs % 60);
    assert(out@ =~= old(out)@ + clock_short(total_ms as nat));
}

/// Formats a time in milliseconds as minutes and seconds, `MM:SS`.
pub fn format_time_simple(total_ms: u64) -> (text: String)
    ensures
        text@ == clock_short(total_ms as nat),
{
    let mut text = String::new();
    push_clock_short(&mut text, total_ms);
    assert(text@ =~= clock_short(total_ms as nat));
    text
}

/// Formats a time in milliseconds as SubRip writes it, `HH:MM:SS,mmm`.
pub fn format_time_srt(total_ms: u64) -> (text: String)
    ensures
        text@ == clock_full(total_ms as nat, ','),
{
    let mut text = String::new();
    push_clock_full(&mut text, total_ms, ',');
    assert(text@ =~= clock_full(total_ms as nat, ','));
    text
}

/// Formats a time in milliseconds as WebVTT writes it, `HH:MM:SS.mmm`.
pub fn format_time_vtt(total_ms: u64) -> (text: String)
    ensures
        text@ == clock_full(total_ms as nat, '.'),
{
    let mut text = String::new();
    push_clock_full(&mut text, total_ms, '.');
    assert(text@ =~= clock_full(total_ms as nat, '.'));
    text
}

/// Joins the parts with `separator` between each two.
fn join(parts: &Vec<String>, separator: &str) -> (text: String)
    ensures
        text@ == joined(texts(parts@), separator@),
{
    let ghost all = texts(parts@);
    let mut text = String::new();
    let mut i: usize = 0;
    while i < parts.len()
        invariant
            i <= parts.len(),
            all == texts(parts@),
            text@ == joined(all.take(i as int), separator@),
        decreases parts.len() - i,
    {
        proof {
            assert(all.take(i + 1).drop_last() =~= all.take(i as int));
        }
        if i > 0 {
            text.append(separator);
        }
        text.append(parts[i].as_str());
        i += 1;
        assert(text@ =~= joined(all.take(i as int), separator@));
    }
    assert(all.take(i as int) =~= all);
    text
}

/// One line of the time-stamped text: `[MM:SS - MM:SS] ` and the caption's text.
pub open spec fn timestamped_line(caption: Caption) -> Seq<char> {
    seq!['['] + clock_short(caption.start_ms) + seq![' ', '-', ' '] + clock_short(caption.end_ms)
        + seq![']', ' '] + caption.text
}

/// The line with the two times of a caption, `HH:MM:SS` with `mark` and the
/// milliseconds, an arrow between them.
pub open spec fn time_line(caption: Caption, mark: char) -> Seq<char> {
    clock_full(caption.start_ms, mark) + seq![' ', '-', '-', '>', ' '] + clock_full(
        caption.end_ms,
        mark,
    )
}

/// The lines of one block: the caption's number, counted from 1, the line
/// with its two times, and its text, each followed by a line break.
pub open spec fn block(index: int, caption: Caption, mark: char) -> Seq<char> {
    decimal((index + 1) as nat) + seq!['\n'] + time_line(caption, mark) + seq!['\n']
        + caption.text + seq!['\n']
}

/// One SubRip block: the lines of the block with a comma before the
/// milliseconds.
pub open spec fn srt_block(index: int, caption: Caption) -> Seq<char> {
    block(index, caption, ',')
}

/// One WebVTT block: the lines of the block with a point before the
/// milliseconds, and an empty line.
pub open spec fn vtt_block(index: int, caption: Caption) -> Seq<char> {
    block(index, caption, '.') + seq!['\n']
}

/// The line that a two-language block adds for the translation: the
/// translation and a line break, or nothing where the caption has no
/// translation or an empty one.
pub open spec fn translation_line(caption: Caption) -> Seq<char> {
    match caption.translation {
        Some(translation) => if translation.len() > 0 {
            translation + seq!['\n']
        } else {
            Seq::empty()
        },
        None => Seq::empty(),
    }
}

/// One two-language SubRip block: the SubRip block, then the translation's
/// line.
pub open spec fn bilingual_block(index: int, caption: Caption) -> Seq<char> {
    srt_block(index, caption) + translation_line(caption)
}

/// The translations that the captions have, in order.
pub open spec fn translations(captions: Seq<Caption>) -> Seq<Seq<char>>
    decreases captions.len(),
{
    if captions.len() == 0 {
        Seq::empty()
    } else {
        let rest = translations(captions.drop_last());
        match captions.last().translation {
            Some(translation) => rest.push(translation),
            None => rest,
        }
    }
}

/// The texts of the captions, one after another.
pub open spec fn plain_text(captions: Seq<Caption>) -> Seq<char> {
    joined(Seq::new(captions.len(), |i: int| captions[i].text), Seq::empty())
}

/// The time-stamped lines of the captions, with a line break between each two.
pub open spec fn timestamped_text(captions: Seq<Caption>) -> Seq<char> {
    joined(Seq::new(captions.len(), |i: int| timestamped_line(captions[i])), seq!['\n'])
}

/// The SubRip blocks of the captions, with an empty line between each two.
pub open spec fn srt_text(captions: Seq<Caption>) -> Seq<char> {
    joined(Seq::new(captions.len(), |i: int| srt_block(i, captions[i])), seq!['\n'])
}

/// The WebVTT header and the WebVTT blocks of the captions.
pub open spec fn vtt_text(captions: Seq<Caption>) -> Seq<char> {
    seq!['W', 'E', 'B', 'V', 'T', 'T', '\n', '\n'] + joined(
        Seq::new(captions.len(), |i: int| vtt_block(i, captions[i])),
        Seq::empty(),
    )
}

/// The two-language SubRip blocks of the captions, with an empty line between
/// each two.
pub open spec fn bilingual_text(captions: Seq<Caption>) -> Seq<char> {
    joined(Seq::new(captions.len(), |i: int| bilingual_block(i, captions[i])), seq!['\n'])
}

/// The translations that the captions have, one after another.
pub open spec fn english_text(captions: Seq<Caption>) -> Seq<char> {
    joined(translations(captions), Seq::empty())
}

/// Writes one line of the time-stamped text.
fn write_timestamped_line(entry: &SubtitleEntry) -> (line: String)
    ensures
        line@ == timestamped_line(entry@),
{
    let mut line = String::new();
    push_char(&mut line, '[');
    push_clock_short(&mut line, entry.start_ms);
    push_char(&mut line, ' ');
    push_char(&mut line, '-');
    push_char(&mut line, ' ');
    push_clock_short(&mut line, entry.end_ms);
    push_char(&mut line, ']');
    push_char(&mut line, ' ');
    line.append(entry.text.as_str());
    assert(line@ =~= timestamped_line(entry@));
    line
}

/// Appends the line with the two times of a caption.
fn push_time_line(out: &mut String, entry: &SubtitleEntry, mark: char)
    ensures
        final(out)@ == old(out)@ + time_line(entry@, mark),
{
    push_clock_full(out, entry.start_ms, mark);
    out.append(" --> ");
    push_clock_full(out, entry.end_ms, mark);
    proof {
        reveal_strlit(" --> ");
        assert(" --> "@ =~= seq![' ', '-', '-', '>', ' ']);
        assert(out@ =~= old(out)@ + time_line(entry@, mark));
    }
}

/// Writes the lines of one block.
fn write_block(index: usize, entry: &SubtitleEntry, mark: char) -> (text: String)
    requires
        index < usize::MAX,
    ensures
        text@ == block(index as int, entry@, mark),
{
    let mut text = String::new();
    push_decimal(&mut text, (index + 1) as u64);
    push_char(&mut text, '\n');
    let ghost head = text@;
    assert(head =~= decimal((index + 1) as nat) + seq!['\n']);
    push_time_line(&mut text, entry, mark);
    push_char(&mut text, '\n');
    let ghost lines = text@;
    assert(lines =~= head + time_line(entry@, mark) + seq!['\n']);
    text.append(entry.text.as_str());
    push_char(&mut text, '\n');
    assert(text@ =~= lines + entry@.text + seq!['\n']);
    text
}

/// Makes the entry for an item that has the given, non-empty text.
fn entry_of(item: &CaptionItem, text: &String) -> (entry: SubtitleEntry)
    requires
        item.text == Some(*text),
        text@.len() > 0,
    ensures
        Some(entry@) == item_caption(*item),
{
    let translation = match &item.trans_text {
        Some(translation) => if translation.as_str().is_empty() {
            None
        } else {
            Some(translation.clone())
        },
        None => None,
    };
    let start_ms = match item.begin_ms {
        Some(ms) => ms,
        None => 0,
    };
    let end_ms = match item.end_ms {
        Some(ms) => ms,
        None => 0,
    };
    SubtitleEntry { start_ms, end_ms, text: text.clone(), translation }
}

impl Subtitle {
    /// Subtitles without a caption.
    pub fn new() -> (subtitle: Subtitle)
        ensures
            subtitle@ == Seq::<Caption>::empty(),
    {
        let subtitle = Subtitle { entries: Vec::new() };
        assert(subtitle@ =~= Seq::<Caption>::empty());
        subtitle
    }

    /// Reads the captions out of the service's answer.
    ///
    /// An answer with a status code other than 0 is refused, with the text
    /// `API error: ` and the service's message. Of any other answer every
    /// item with a text becomes a caption, in order; a missing caption list
    /// gives subtitles without a caption.
    pub fn from_json(response: &CaptionResponse) -> (result: Result<Subtitle, ApiError>)
        ensures
            result is Ok <==> response.accepted(),
            result matches Ok(subtitle) ==> subtitle@ == captions_of(response.items()),
            result matches Err(error) ==> error.message@ == "API error: "@ + response.complaint(),
    {
        match response.code {
            Some(code) => {
                if code != 0 {
                    let mut message = "API error: ".to_owned();
                    match &response.msg {
                        Some(msg) => message.append(msg.as_str()),
                        None => message.append("Unknown error"),
                    }
                    return Err(ApiError { message });
                }
            },
            None => {},
        }
        let mut entries: Vec<SubtitleEntry> = Vec::new();
        match &response.all_content {
            Some(items) => {
                let mut i: usize = 0;
                while i < items.len()
                    invariant
                        i <= items.len(),
                        captions(entries@) == captions_of(items@.take(i as int)),
                    decreases items.len() - i,
                {
                    proof {
                        assert(items@.take(i + 1).drop_last() =~= items@.take(i as int));
                    }
                    let ghost before = entries@;
                    match &items[i].text {
                        Some(text) => {
                            if !text.as_str().is_empty() {
                                let entry = entry_of(&items[i], text);
                                entries.push(entry);
                                assert(captions(entries@) =~= captions(before).push(entry@));
                            }
                        },
                        None => {},
                    }
                    i += 1;
                }
                assert(items@.take(i as int) =~= items@);
            },
            None => {
                assert(captions(entries@) =~= Seq::<Caption>::empty());
            },
        }
        Ok(Subtitle { entries })
    }

    /// The texts of all captions, one after another, with nothing between them.
    pub fn to_plain_text(&self) -> (text: String)
        ensures
            text@ == plain_text(self@),
    {
        let mut parts: Vec<String> = Vec::new();
        let mut i: usize = 0;
        while i < self.entries.len()
            invariant
                i <= self.entries.len(),
                parts.len() == i,
                forall|j: int| 0 <= j < i ==> (#[trigger] parts@[j])@ == self@[j].text,
            decreases self.entries.len() - i,
        {
            parts.push(self.entries[i].text.clone());
            i += 1;
        }
        proof {
            reveal_strlit("");
            assert(""@ =~= Seq::<char>::empty());
            assert(texts(parts@) =~= Seq::new(self@.len(), |i: int| self@[i].text));
        }
        join(&parts, "")
    }

    /// One line per caption, `[MM:SS - MM:SS] ` and the text.
    pub fn to_timestamped_text(&self) -> (text: String)
        ensures
            text@ == timestamped_text(self@),
    {
        let mut parts: Vec<String> = Vec::new();
        let mut i: usize = 0;
        while i < self.entries.len()
            invariant
                i <= self.entries.len(),
                parts.len() == i,
                forall|j: int| 0 <= j < i ==> (#[trigger] parts@[j])@ == timestamped_line(self@[j]),
            decreases self.entries.len() - i,
        {
            parts.push(write_timestamped_line(&self.entries[i]));
            i += 1;
        }
        proof {
            reveal_strlit("\n");
            assert("\n"@ =~= seq!['\n']);
            assert(texts(parts@) =~= Seq::new(self@.len(), |i: int| timestamped_line(self@[i])));
        }
        join(&parts, "\n")
    }

    /// The captions as a SubRip file: numbered blocks with times as
    /// `HH:MM:SS,mmm`, an empty line between each two.
    pub fn to_srt(&self) -> (text: String)
        ensures
            text@ == srt_text(self@),
    {
        let mut parts: Vec<String> = Vec::new();
        let mut i: usize = 0;
        while i < self.entries.len()
            invariant
                i <= self.entries.len(),
                parts.len() == i,
                forall|j: int| 0 <= j < i ==> (#[trigger] parts@[j])@ == srt_block(j, self@[j]),
            decreases self.entries.len() - i,
        {
            parts.push(write_block(i, &self.entries[i], ','));
            i += 1;
        }
        proof {
            reveal_strlit("\n");
            assert("\n"@ =~= seq!['\n']);
            assert(texts(parts@) =~= Seq::new(self@.len(), |i: int| srt_block(i, self@[i])));
        }
        join(&parts, "\n")
    }

    /// The captions as a WebVTT file: the header, then numbered blocks with
    /// times as `HH:MM:SS.mmm`, each followed by an empty line.
    pub fn to_vtt(&self) -> (text: String)
        ensures
            text@ == vtt_text(self@),
    {
        let mut parts: Vec<String> = Vec::new();
        let mut i: usize = 0;
        while i < self.entries.len()
            invariant
                i <= self.entries.len(),
                parts.len() == i,
                forall|j: int| 0 <= j < i ==> (#[trigger] parts@[j])@ == vtt_block(j, self@[j]),
            decreases self.entries.len() - i,
        {
            let mut text = write_block(i, &self.entries[i], '.');
            push_char(&mut text, '\n');
            parts.push(text);
            i += 1;
        }
        let mut text = "WEBVTT\n\n".to_owned();
        let blocks = join(&parts, "");
        text.append(blocks.as_str());
        proof {
            reveal_strlit("");
            reveal_strlit("WEBVTT\n\n");
            assert(""@ =~= Seq::<char>::empty());
            assert("WEBVTT\n\n"@ =~= seq!['W', 'E', 'B', 'V', 'T', 'T', '\n', '\n']);
            assert(texts(parts@) =~= Seq::new(self@.len(), |i: int| vtt_block(i, self@[i])));
        }
        text
    }

    /// The captions as a SubRip file in two languages: each block holds the
    /// text and, where the caption has one, its translation on a line of its
    /// own.
    pub fn to_srt_bilingual(&self) -> (text: String)
        ensures
            text@ == bilingual_text(self@),
    {
        let mut parts: Vec<String> = Vec::new();
        let mut i: usize = 0;
        while i < self.entries.len()
            invariant
                i <= self.entries.len(),
                parts.len() == i,
                forall|j: int| 0 <= j < i ==> (#[trigger] parts@[j])@ == bilingual_block(j, self@[j]),
            decreases self.entries.len() - i,
        {
            let mut text = write_block(i, &self.entries[i], ',');
            match &self.entries[i].translation {
                Some(translation) => {
                    if !translation.as_str().is_empty() {
                        text.append(translation.as_str());
                        push_char(&mut text, '\n');
                    }
                },
                None => {},
            }
            assert(text@ =~= bilingual_block(i as int, self@[i as int]));
            parts.push(text);
            i += 1;
        }
        proof {
            reveal_strlit("\n");
            assert("\n"@ =~= seq!['\n']);
            assert(texts(parts@) =~= Seq::new(self@.len(), |i: int| bilingual_block(i, self@[i])));
        }
        join(&parts, "\n")
    }

    /// The translations of all captions that have one, one after another, with
    /// nothing between them.
    pub fn to_plain_text_english(&self) -> (text: String)
        ensures
            text@ == english_text(self@),
    {
        let mut parts: Vec<String> = Vec::new();
        let mut i: usize = 0;
        while i < self.entries.len()
            invariant
                i <= self.entries.len(),
                texts(parts@) == translations(self@.take(i as int)),
            decreases self.entries.len() - i,
        {
            proof {
                assert(self@.take(i + 1).drop_last() =~= self@.take(i as int));
            }
            let ghost before = parts@;
            match &self.entries[i].translation {
                Some(translation) => {
                    parts.push(translation.clone());
                    assert(texts(parts@) =~= texts(before).push(translation@));
                },
                None => {},
            }
            i += 1;
        }
        proof {
            reveal_strlit("");
            assert(""@ =~= Seq::<char>::empty());
            assert(self@.take(i as int) =~= self@);
        }
        join(&parts, "")
    }
}

} // verus!
