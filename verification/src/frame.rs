//! The parser of the push stream: lines in, frames out.
//!
//! The stream is text. A frame is a run of lines that ends with a blank
//! line. Each line of a frame is a field: a name, a colon, a value. The
//! fields `event`, `data` and `id` are kept; a line that begins with a colon
//! is a comment; any other line is passed over.

use crate::text::chars_eq;
use crate::text::chars_of;
use crate::text::find_char;
use crate::text::lemma_position_of;
use crate::text::position_of;
use crate::text::string_of;
use crate::text::strip_line_end;
use crate::text::sub_chars;
use crate::text::trim;
use crate::text::trim_line_end;
use crate::text::trimmed;
use vstd::prelude::*;

verus! {

/// A frame of the push stream, complete or still being read.
#[derive(Debug)]
pub struct Event {
    pub event: String,
    pub data: String,
    pub id: String,
}

/// A frame as plain sequences of characters.
pub struct EventView {
    pub event: Seq<char>,
    pub data: Seq<char>,
    pub id: Seq<char>,
}

impl View for Event {
    type V = EventView;

    open spec fn view(&self) -> EventView {
        EventView { event: self.event@, data: self.data@, id: self.id@ }
    }
}

/// The frame in which nothing has been read.
pub open spec fn empty_frame() -> EventView {
    EventView { event: Seq::empty(), data: Seq::empty(), id: Seq::empty() }
}

impl Default for Event {
    /// The frame in which nothing has been read.
    fn default() -> (r: Self)
        ensures
            r@ == empty_frame(),
    {
        Event { event: String::new(), data: String::new(), id: String::new() }
    }
}

/// The name of the field that a line holds: what stands before its first colon.
pub open spec fn field_name(line: Seq<char>) -> Seq<char> {
    line.take(position_of(line, ':'))
}

/// The value of the field that a line holds: what stands after its first
/// colon, without leading and trailing whitespace.
pub open spec fn field_value(line: Seq<char>) -> Seq<char> {
    trim(line.skip(position_of(line, ':') + 1))
}

/// The frame after one more line of it is read. The line has no line end
/// and is not blank.
pub open spec fn frame_with_line(frame: EventView, line: Seq<char>) -> EventView {
    if line[0] == ':' || !line.contains(':') {
        frame
    } else if field_name(line) == "event"@ {
        EventView {
            event: if field_value(line).len() == 0 {
                "message"@
            } else {
                field_value(line)
            },
            ..frame
        }
    } else if field_name(line) == "data"@ {
        EventView { data: frame.data + field_value(line) + seq!['\n'], ..frame }
    } else if field_name(line) == "id"@ {
        EventView { id: field_value(line), ..frame }
    } else {
        frame
    }
}

/// One step of the parser: a blank line completes the frame and starts an
/// empty one; any other line goes into the frame.
pub open spec fn parser_step(frame: EventView, raw: Seq<char>) -> (EventView, Option<EventView>) {
    let line = trim_line_end(raw);
    if line.len() == 0 {
        (empty_frame(), Some(frame))
    } else {
        (frame_with_line(frame, line), None)
    }
}

/// The length of the first line of a text, its line feed included.
pub open spec fn first_line_len(text: Seq<char>) -> int {
    if position_of(text, '\n') < text.len() {
        position_of(text, '\n') + 1
    } else {
        text.len() as int
    }
}

/// The parser run over a text line by line: the frame left pending and the
/// frames completed, in order. What follows the last line feed counts as
/// a line.
pub open spec fn parser_run(frame: EventView, text: Seq<char>) -> (EventView, Seq<EventView>)
    decreases text.len(),
{
    if text.len() == 0 {
        (frame, Seq::empty())
    } else {
        let n = first_line_len(text);
        let step = parser_step(frame, text.take(n));
        if 0 < n <= text.len() {
            let rest = parser_run(step.0, text.skip(n));
            match step.1 {
                Some(done) => (rest.0, seq![done] + rest.1),
                None => rest,
            }
        } else {
            (frame, Seq::empty())
        }
    }
}

/// The views of a list of frames.
pub open spec fn event_views(events: Seq<Event>) -> Seq<EventView> {
    Seq::new(events.len(), |i: int| events[i]@)
}

/// The line-by-line parser of the push stream, with the frame it is reading.
pub struct FrameParser {
    pending: Event,
}

impl View for FrameParser {
    type V = EventView;

    closed spec fn view(&self) -> EventView {
        self.pending@
    }
}

impl FrameParser {
    /// A parser that has read nothing.
    pub fn new() -> (r: Self)
        ensures
            r@ == empty_frame(),
    {
        FrameParser { pending: Event::default() }
    }

    /// Forgets the frame being read.
    pub fn reset(&mut self)
        ensures
            final(self)@ == empty_frame(),
    {
        self.pending = Event::default();
    }

    /// Reads one line, with or without its line end. A blank line hands
    /// out the frame read so far and starts an empty one.
    pub fn feed_line(&mut self, line: &str) -> (r: Option<Event>)
        ensures
            final(self)@ == parser_step(old(self)@, line@).0,
            match r {
                Some(done) => parser_step(old(self)@, line@).1 == Some(done@),
                None => parser_step(old(self)@, line@).1 is None,
            },
    {
        let raw = chars_of(line);
        self.feed_chars(&raw)
    }

    fn feed_chars(&mut self, raw: &Vec<char>) -> (r: Option<Event>)
        ensures
            final(self)@ == parser_step(old(self)@, raw@).0,
            match r {
                Some(done) => parser_step(old(self)@, raw@).1 == Some(done@),
                None => parser_step(old(self)@, raw@).1 is None,
            },
    {
        let line = strip_line_end(raw);
        if line.len() == 0 {
            let mut done = Event::default();
            core::mem::swap(&mut self.pending, &mut done);
            return Some(done);
        }
        proof {
            lemma_position_of(line@, ':');
        }
        if line[0] == ':' {
            return None;
        }
        let p = find_char(&line, ':');
        if p >= line.len() {
            return None;
        }
        let name = sub_chars(&line, 0, p);
        let rest = sub_chars(&line, p + 1, line.len());
        let value = trimmed(&rest);
        assert(name@ == field_name(line@));
        assert(value@ == field_value(line@));
        if chars_eq(&name, &chars_of("event")) {
            if value.len() == 0 {
                self.pending.event = "message".to_owned();
            } else {
                self.pending.event = string_of(&value);
            }
        } else if chars_eq(&name, &chars_of("data")) {
            let text = string_of(&value);
            let mut data = String::new();
            core::mem::swap(&mut self.pending.data, &mut data);
            data.append(text.as_str());
            data.push('\n');
            self.pending.data = data;
            proof {
                assert(self.pending.data@ =~= old(self).pending.data@ + field_value(line@)
                    + seq!['\n']);
                reveal_strlit("event");
                reveal_strlit("data");
            }
        } else if chars_eq(&name, &chars_of("id")) {
            self.pending.id = string_of(&value);
            proof {
                reveal_strlit("event");
                reveal_strlit("data");
                reveal_strlit("id");
            }
        } else {
        }
        proof {
            reveal_strlit("event");
            reveal_strlit("data");
            reveal_strlit("id");
        }
        None
    }

    /// Reads a text line by line and hands out the frames that its blank
    /// lines complete, in order. What follows the last line feed is read
    /// as a line.
    pub fn feed(&mut self, text: &str) -> (r: Vec<Event>)
        ensures
            final(self)@ == parser_run(old(self)@, text@).0,
            event_views(r@) == parser_run(old(self)@, text@).1,
    {
        let chars = chars_of(text);
        let mut out: Vec<Event> = Vec::new();
        let mut pos: usize = 0;
        proof {
            assert(chars@.skip(0) =~= chars@);
            assert(event_views(out@) =~= Seq::empty());
            assert(event_views(out@) + parser_run(self@, chars@).1 =~= parser_run(
                self@,
                chars@,
            ).1);
        }
        while pos < chars.len()
            invariant
                pos <= chars.len(),
                parser_run(old(self)@, chars@).0 == parser_run(self@, chars@.skip(pos as int)).0,
                parser_run(old(self)@, chars@).1 == event_views(out@) + parser_run(
                    self@,
                    chars@.skip(pos as int),
                ).1,
            decreases chars.len() - pos,
        {
            let ghost rest = chars@.skip(pos as int);
            let ghost frame = self@;
            let ghost before = event_views(out@);
            let mut end: usize = pos;
            while end < chars.len() && chars[end] != '\n'
                invariant
                    pos <= end <= chars.len(),
                    forall|j: int| pos <= j < end ==> chars@[j] != '\n',
                decreases chars.len() - end,
            {
                end += 1;
            }
            proof {
                assert forall|j: int| 0 <= j < end - pos implies rest[j] != '\n' by {
                    assert(rest[j] == chars@[pos + j]);
                }
                if end < chars.len() {
                    assert(rest[end - pos] == '\n');
                }
                crate::text::lemma_position_of_unique(rest, '\n', end - pos);
            }
            let stop: usize = if end < chars.len() {
                end + 1
            } else {
                end
            };
            assert(stop - pos == first_line_len(rest));
            let line = sub_chars(&chars, pos, stop);
            proof {
                assert(line@ =~= rest.take(stop - pos));
                assert(chars@.skip(stop as int) =~= rest.skip(stop - pos));
            }
            match self.feed_chars(&line) {
                Some(done) => {
                    out.push(done);
                    proof {
                        assert(event_views(out@) =~= before + seq![done@]);
                    }
                },
                None => {},
            }
            pos = stop;
        }
        proof {
            assert(chars@.skip(chars.len() as int) =~= Seq::<char>::empty());
        }
        out
    }
}

} // verus!
