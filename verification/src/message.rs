use vstd::prelude::*;
use vstd::string::*;

verus! {

/// One chat utterance. A message is created by its sender, never changed,
/// and copied for every receiver.
#[derive(Debug, Clone)]
pub struct ChatMessage {
    pub sender: String,
    pub room: String,
    pub content: String,
    /// Nanoseconds since the Unix epoch, UTC.
    pub timestamp: i64,
}

/// A message with its texts as sequences of characters.
pub struct MessageText {
    pub sender: Seq<char>,
    pub room: Seq<char>,
    pub content: Seq<char>,
    pub timestamp: i64,
}

impl View for ChatMessage {
    type V = MessageText;

    open spec fn view(&self) -> MessageText {
        MessageText {
            sender: self.sender@,
            room: self.room@,
            content: self.content@,
            timestamp: self.timestamp,
        }
    }
}

/// How chrono prints the UTC instant that lies `nanos` nanoseconds after the
/// Unix epoch.
pub uninterp spec fn utc_text(nanos: i64) -> Seq<char>;

/// Calls `chrono::DateTime::from_timestamp_nanos`, which accepts every `i64`,
/// and prints the instant with chrono's `Display` for `DateTime<Utc>`. The
/// text depends on `nanos` alone.
#[verifier::external_body]
fn format_utc(nanos: i64) -> (text: String)
    ensures
        text@ == utc_text(nanos),
{
    chrono::DateTime::from_timestamp_nanos(nanos).to_string()
}

/// The rendering of a message whose timestamp prints as `stamp`: one line
/// that holds the timestamp, the sender, the room and the content, in that
/// order.
pub open spec fn rendered(
    stamp: Seq<char>,
    sender: Seq<char>,
    room: Seq<char>,
    content: Seq<char>,
) -> Seq<char> {
    "["@ + stamp + "] "@ + sender + " said in "@ + room + ": "@ + content + "\n"@
}

impl ChatMessage {
    /// Renders the message around an already printed timestamp: the
    /// timestamp, the sender, the room and the content, in that order.
    pub fn render_with(&self, stamp: &str) -> (line: String)
        ensures
            line@ == rendered(stamp@, self.sender@, self.room@, self.content@),
    {
        let mut line = String::new();
        line.append("[");
        line.append(stamp);
        line.append("] ");
        line.append(self.sender.as_str());
        line.append(" said in ");
        line.append(self.room.as_str());
        line.append(": ");
        line.append(self.content.as_str());
        line.append("\n");
        assert(line@ =~= rendered(stamp@, self.sender@, self.room@, self.content@));
        line
    }

    /// Renders the message for a sink, with its timestamp printed as a UTC
    /// date and time.
    pub fn to_string(&self) -> (line: String)
        ensures
            line@ == rendered(utc_text(self.timestamp), self.sender@, self.room@, self.content@),
    {
        let stamp = format_utc(self.timestamp);
        self.render_with(stamp.as_str())
    }
}

} // verus!
