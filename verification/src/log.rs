//! The log of what was said and found, newest line first.

use crate::constants::{MAP_HEIGHT, SCREEN_HEIGHT};
use crate::palette::WHITE;
use crate::suspect::Suspect;
use crate::time::{stamp_text, Time};
use vstd::prelude::*;
use vstd::string::*;

verus! {

#[derive(Debug, PartialEq)]
pub struct Message {
    timestamp: String,
    speaker: String,
    content: String,
    color: (u8, u8, u8),
}

/// A message as contracts see it.
pub struct MessageView {
    pub timestamp: Seq<char>,
    pub speaker: Seq<char>,
    pub content: Seq<char>,
    pub color: (u8, u8, u8),
}

impl View for Message {
    type V = MessageView;

    closed spec fn view(&self) -> MessageView {
        MessageView {
            timestamp: self.timestamp@,
            speaker: self.speaker@,
            content: self.content@,
            color: self.color,
        }
    }
}

impl Clone for Message {
    fn clone(&self) -> (copy: Message)
        ensures
            copy@ == self@,
    {
        Message {
            timestamp: self.timestamp.clone(),
            speaker: self.speaker.clone(),
            content: self.content.clone(),
            color: (self.color.0, self.color.1, self.color.2),
        }
    }
}

/// A message as one line: when, who, what.
pub open spec fn line_text(message: MessageView) -> Seq<char> {
    message.timestamp + " | "@ + message.speaker + ": "@ + message.content
}

impl Message {
    pub fn new(timestamp: &str, speaker: &str, content: &str, color: (u8, u8, u8)) -> (made: Message)
        ensures
            made@ == (MessageView {
                timestamp: timestamp@,
                speaker: speaker@,
                content: content@,
                color,
            }),
    {
        Message {
            timestamp: String::from_str(timestamp),
            speaker: String::from_str(speaker),
            content: String::from_str(content),
            color,
        }
    }

    pub fn color(&self) -> (color: (u8, u8, u8))
        ensures
            color == self@.color,
    {
        self.color
    }

    pub fn to_string(&self) -> (line: String)
        ensures
            line@ == line_text(self@),
    {
        let mut line = self.timestamp.clone();
        line.append(" | ");
        line.append(self.speaker.as_str());
        line.append(": ");
        line.append(self.content.as_str());
        assert(line@ =~= line_text(self@));
        line
    }
}

#[derive(Debug, PartialEq)]
pub struct Log {
    pub log: Vec<Message>,
}

impl Clone for Log {
    fn clone(&self) -> (copy: Log)
        ensures
            messages_view(copy.log@) == messages_view(self.log@),
    {
        let mut log: Vec<Message> = Vec::new();
        let mut i: usize = 0;
        while i < self.log.len()
            invariant
                i <= self.log.len(),
                log.len() == i,
                forall|j: int| 0 <= j < i ==> (#[trigger] log@[j])@ == self.log@[j]@,
            decreases self.log.len() - i,
        {
            log.push(self.log[i].clone());
            i = i + 1;
        }
        assert(messages_view(log@) =~= messages_view(self.log@));
        Log { log }
    }
}

/// The messages of a log as contracts see them.
pub open spec fn messages_view(messages: Seq<Message>) -> Seq<MessageView> {
    Seq::new(messages.len(), |i: int| messages[i]@)
}

/// How many of the newest messages are shown under the map.
pub const LOG_LINES_SHOWN: usize = 6;

/// Puts a message at the front of the log, stamped with the day and the time
/// of day.
pub fn log_message(log: &mut Log, time: &Time, speaker: &str, content: &str, color: (u8, u8, u8))
    ensures
        messages_view(final(log).log@) == seq![
            MessageView {
                timestamp: stamp_text(time@.day, time@.hour, time@.minute),
                speaker: speaker@,
                content: content@,
                color,
            },
        ] + messages_view(old(log).log@),
{
    let timestamp = time.get_day_and_time();
    let msg = Message::new(timestamp.as_str(), speaker, content, color);
    log.log.insert(0, msg);
    assert(messages_view(log.log@) =~= seq![msg@] + messages_view(old(log).log@));
}

/// Says a line to a suspect: the line goes into the log as the player's, the
/// suspect's answer goes in after it, in the suspect's colour and with the
/// same stamp, and then a minute passes.
pub fn say_line(
    log: &mut Log,
    time: &mut Time,
    speaker: &Suspect,
    lines: &Vec<(String, String)>,
    idx: usize,
)
    requires
        idx < lines.len(),
        old(time)@.minute_can_pass(),
    ensures
        messages_view(final(log).log@) == seq![
            MessageView {
                timestamp: stamp_text(old(time)@.day, old(time)@.hour, old(time)@.minute),
                speaker: speaker.name@,
                content: lines@[idx as int].1@,
                color: speaker.color,
            },
            MessageView {
                timestamp: stamp_text(old(time)@.day, old(time)@.hour, old(time)@.minute),
                speaker: "You"@,
                content: lines@[idx as int].0@,
                color: WHITE,
            },
        ] + messages_view(old(log).log@),
        final(time)@ == old(time)@.next_minute(),
{
    log_message(log, time, "You", lines[idx].0.as_str(), WHITE);
    log_message(log, time, speaker.name.as_str(), lines[idx].1.as_str(), speaker.color);
    time.advance_minute();
    assert(messages_view(log.log@) =~= seq![
        MessageView {
            timestamp: stamp_text(old(time)@.day, old(time)@.hour, old(time)@.minute),
            speaker: speaker.name@,
            content: lines@[idx as int].1@,
            color: speaker.color,
        },
        MessageView {
            timestamp: stamp_text(old(time)@.day, old(time)@.hour, old(time)@.minute),
            speaker: "You"@,
            content: lines@[idx as int].0@,
            color: WHITE,
        },
    ] + messages_view(old(log).log@));
}

/// The row on which a message is shown under the map, by its place in the
/// log; `None` for a message that is too old to be shown. The newest message
/// is on the second row from the bottom, each older one two rows higher, as
/// long as the row lies in the log area below its title.
pub fn log_row(place: usize) -> (row: Option<i32>)
    ensures
        row == if place < LOG_LINES_SHOWN {
            Some((SCREEN_HEIGHT - 2 - 2 * place) as i32)
        } else {
            None
        },
        row.is_some() ==> row.unwrap() >= MAP_HEIGHT + 2,
{
    if place < LOG_LINES_SHOWN {
        Some(SCREEN_HEIGHT - 2 - 2 * (place as i32))
    } else {
        None
    }
}

} // verus!
