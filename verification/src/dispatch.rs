//! Scheduled broadcasts: when a queued message is due, and what is sent for
//! it.

use crate::seq_facts::{lemma_last_contains, lemma_prefix_contains};
use crate::state::AppState;
use base64::Engine;
use vstd::prelude::*;

verus! {

/// A point in time: the seconds since the start of 1970 in UTC, and the
/// nanoseconds into that second. Within a leap second `nanos` is
/// 1,000,000,000 or more.
#[derive(Debug, Clone, Copy, PartialEq, Eq, Structural)]
pub struct Moment {
    pub secs: i64,
    pub nanos: u32,
}

impl Moment {
    /// `self` is not later than `other`.
    pub open spec fn at_or_before(self, other: Moment) -> bool {
        self.secs < other.secs || (self.secs == other.secs && self.nanos <= other.nanos)
    }

    /// Whether `self` is not later than `other`.
    pub fn is_at_or_before(&self, other: &Moment) -> (r: bool)
        ensures
            r == self.at_or_before(*other),
    {
        self.secs < other.secs || (self.secs == other.secs && self.nanos <= other.nanos)
    }
}

/// `chrono::ParseError`: why a text is no timestamp.
#[verifier::external_type_specification]
#[verifier::external_body]
pub struct ExParseError(chrono::ParseError);

/// `base64::DecodeError`: why a text is no base64.
#[verifier::external_type_specification]
#[verifier::external_body]
pub struct ExDecodeError(base64::DecodeError);

/// The point in time that a text names in the format of RFC 3339, as seconds
/// and nanoseconds, or `None` where the text is no such timestamp.
pub uninterp spec fn rfc3339_moment(text: Seq<char>) -> Option<(i64, u32)>;

/// The bytes that a text stands for in standard base64 with padding, or
/// `None` where the text is no such encoding.
pub uninterp spec fn base64_standard_bytes(text: Seq<char>) -> Option<Seq<u8>>;

/// `chrono::DateTime::parse_from_rfc3339`, the result taken as
/// `DateTime::timestamp` and `DateTime::timestamp_subsec_nanos`: the point in
/// time that `text` names, or the parser's error.
#[verifier::external_body]
fn parse_rfc3339(text: &str) -> (parsed: Result<(i64, u32), chrono::ParseError>)
    ensures
        match parsed {
            Ok(moment) => rfc3339_moment(text@) == Some(moment),
            Err(_) => rfc3339_moment(text@).is_none(),
        },
{
    chrono::DateTime::parse_from_rfc3339(text).map(
        |moment| (moment.timestamp(), moment.timestamp_subsec_nanos()),
    )
}

/// `Engine::decode` of `base64::engine::general_purpose::STANDARD`: the bytes
/// that `text` encodes, or the decoder's error.
#[verifier::external_body]
fn decode_standard(text: &str) -> (decoded: Result<Vec<u8>, base64::DecodeError>)
    ensures
        match decoded {
            Ok(bytes) => base64_standard_bytes(text@) == Some(bytes@),
            Err(_) => base64_standard_bytes(text@).is_none(),
        },
{
    base64::engine::general_purpose::STANDARD.decode(text)
}

/// Whether a queued message is to be delivered now.
#[derive(Debug, Clone, Copy, PartialEq, Eq, Structural)]
pub enum Readiness {
    /// The scheduled time cannot be read: the message stays queued.
    Unreadable,
    /// The scheduled time lies ahead: the message stays queued.
    NotDue,
    /// The scheduled time has come.
    Due,
}

/// The point in time that `text` names in the format of RFC 3339.
pub open spec fn moment_of(text: Seq<char>) -> Option<Moment> {
    match rfc3339_moment(text) {
        Some(at) => Some(Moment { secs: at.0, nanos: at.1 }),
        None => None,
    }
}

/// The readiness of a message scheduled for `scheduled`, at the time `now`.
/// A message is due from its scheduled time on.
pub open spec fn readiness_at(scheduled: Option<Moment>, now: Moment) -> Readiness {
    match scheduled {
        None => Readiness::Unreadable,
        Some(at) => if at.at_or_before(now) {
            Readiness::Due
        } else {
            Readiness::NotDue
        },
    }
}

/// The readiness of a message whose scheduled time was read as `scheduled`,
/// at the time `now`.
pub fn readiness(scheduled: Option<Moment>, now: Moment) -> (r: Readiness)
    ensures
        r == readiness_at(scheduled, now),
{
    match scheduled {
        None => Readiness::Unreadable,
        Some(at) => {
            if at.is_at_or_before(&now) {
                Readiness::Due
            } else {
                Readiness::NotDue
            }
        },
    }
}

/// Reads a timestamp in the format of RFC 3339.
pub fn parse_moment(text: &str) -> (parsed: Option<Moment>)
    ensures
        parsed == moment_of(text@),
{
    match parse_rfc3339(text) {
        Ok(moment) => Some(Moment { secs: moment.0, nanos: moment.1 }),
        Err(_) => None,
    }
}

/// The most images that one media group holds.
pub const MEDIA_GROUP_LIMIT: usize = 10;

/// The seconds between two passes of the dispatcher over the message queue.
pub const DISPATCH_PERIOD_SECS: u64 = 15;

/// One send of a delivery.
#[derive(Debug, Clone, Copy, PartialEq, Eq, Structural)]
pub enum Outbound {
    /// Send the images at the positions `from..to` to `chat_id` as one media
    /// group.
    MediaGroup { chat_id: i64, from: usize, to: usize },
    /// Send the text of the message to `chat_id`.
    Text { chat_id: i64 },
}

/// The number of media groups that `images` images make.
pub open spec fn batch_count(images: nat) -> nat {
    (images + MEDIA_GROUP_LIMIT - 1) as nat / (MEDIA_GROUP_LIMIT as nat)
}

/// The media group at position `index` of the groups that `images` images
/// make for `chat_id`: every group but the last holds the full number of
/// images.
pub open spec fn batch(chat_id: i64, images: nat, index: int) -> Outbound {
    Outbound::MediaGroup {
        chat_id,
        from: (index * MEDIA_GROUP_LIMIT) as usize,
        to: if (index + 1) * MEDIA_GROUP_LIMIT <= images {
            ((index + 1) * MEDIA_GROUP_LIMIT) as usize
        } else {
            images as usize
        },
    }
}

/// The sends that one target gets: the media groups in order, then the text.
pub open spec fn sends_to(chat_id: i64, images: nat) -> Seq<Outbound> {
    Seq::new(batch_count(images), |index: int| batch(chat_id, images, index)).push(
        Outbound::Text { chat_id },
    )
}

/// The sends of a delivery to `chats`: target after target, each with its
/// media groups and then the text.
pub open spec fn sends_for(chats: Seq<i64>, images: nat) -> Seq<Outbound>
    decreases chats.len(),
{
    if chats.len() == 0 {
        Seq::empty()
    } else {
        sends_for(chats.drop_last(), images) + sends_to(chats.last(), images)
    }
}

/// The sends that deliver a message with `images` images to `chats`.
///
/// Each send is an attempt of its own: a send that fails is neither
/// repeated nor a reason to leave out the sends behind it.
pub fn plan_sends(chats: &Vec<i64>, images: usize) -> (sends: Vec<Outbound>)
    ensures
        sends@ == sends_for(chats@, images as nat),
{
    let mut sends: Vec<Outbound> = Vec::new();
    let mut i: usize = 0;
    while i < chats.len()
        invariant
            i <= chats.len(),
            sends@ == sends_for(chats@.take(i as int), images as nat),
        decreases chats.len() - i,
    {
        let chat_id = chats[i];
        let ghost before = sends@;
        let mut from: usize = 0;
        let mut made: usize = 0;
        while from < images
            invariant
                from <= images,
                made <= batch_count(images as nat),
                from == if made * MEDIA_GROUP_LIMIT <= images {
                    made * MEDIA_GROUP_LIMIT
                } else {
                    images as int
                },
                sends@ == before + Seq::new(
                    made as nat,
                    |index: int| batch(chat_id, images as nat, index),
                ),
            decreases images - from,
        {
            let to = if images - from > MEDIA_GROUP_LIMIT {
                from + MEDIA_GROUP_LIMIT
            } else {
                images
            };
            sends.push(Outbound::MediaGroup { chat_id, from, to });
            proof {
                assert(sends@ =~= before + Seq::new(
                    (made + 1) as nat,
                    |index: int| batch(chat_id, images as nat, index),
                ));
            }
            from = to;
            made = made + 1;
        }
        sends.push(Outbound::Text { chat_id });
        proof {
            assert(made == batch_count(images as nat));
            lemma_prefix_contains(chats@, i as int);
            assert(sends@ =~= before + sends_to(chat_id, images as nat));
        }
        i = i + 1;
    }
    proof {
        assert(chats@.take(chats.len() as int) =~= chats@);
    }
    sends
}

/// The media groups split the images without gap or overlap: each starts
/// where the one before it ends, the first at the first image, and the last
/// ends behind the last image. None is empty and none holds more than the
/// limit.
pub proof fn lemma_batches_cover_images(chat_id: i64, images: nat, index: int)
    requires
        0 <= index < batch_count(images),
        images <= usize::MAX,
    ensures
        batch(chat_id, images, index) == (Outbound::MediaGroup {
            chat_id,
            from: (index * MEDIA_GROUP_LIMIT) as usize,
            to: if index + 1 < batch_count(images) {
                ((index + 1) * MEDIA_GROUP_LIMIT) as usize
            } else {
                images as usize
            },
        }),
        index * MEDIA_GROUP_LIMIT < images,
        index + 1 < batch_count(images) ==> (index + 1) * MEDIA_GROUP_LIMIT < images,
        images - index * MEDIA_GROUP_LIMIT <= MEDIA_GROUP_LIMIT || index + 1 < batch_count(images),
{
}

/// The sends of a delivery, read by position: every target, in order, has
/// as many sends as there are media groups and one more; among them the
/// media groups come first, in order, and the text comes last.
pub proof fn lemma_sends_by_position(chats: Seq<i64>, images: nat, target: int, part: int)
    requires
        0 <= target < chats.len(),
        0 <= part <= batch_count(images),
    ensures
        sends_for(chats, images).len() == chats.len() * (batch_count(images) + 1),
        sends_for(chats, images)[target * (batch_count(images) + 1) + part] == if part
            < batch_count(images) {
            batch(chats[target], images, part)
        } else {
            Outbound::Text { chat_id: chats[target] }
        },
    decreases chats.len(),
{
    let each = batch_count(images) + 1;
    let earlier = chats.drop_last();
    let before = sends_for(earlier, images);
    let last = sends_to(chats.last(), images);
    lemma_sends_length(earlier, images);
    assert(before.len() == earlier.len() * each);
    assert(chats.len() * each == earlier.len() * each + each) by (nonlinear_arith)
        requires
            chats.len() == earlier.len() + 1,
    ;
    if target < chats.len() - 1 {
        lemma_sends_by_position(earlier, images, target, part);
        assert(target * each + part < earlier.len() * each) by (nonlinear_arith)
            requires
                0 <= target < earlier.len(),
                0 <= part < each,
        ;
    } else {
        assert(target * each == before.len());
        assert(sends_for(chats, images)[before.len() + part] == last[part]);
    }
}

/// The number of sends of a delivery.
pub proof fn lemma_sends_length(chats: Seq<i64>, images: nat)
    ensures
        sends_for(chats, images).len() == chats.len() * (batch_count(images) + 1),
    decreases chats.len(),
{
    let each = batch_count(images) + 1;
    if chats.len() > 0 {
        let earlier = chats.drop_last();
        lemma_sends_length(earlier, images);
        assert(chats.len() * each == earlier.len() * each + each) by (nonlinear_arith)
            requires
                chats.len() == earlier.len() + 1,
        ;
    }
}

/// A row of the message queue.
#[derive(Debug)]
pub struct QueuedMessage {
    pub id: i32,
    /// The target groups, in the order in which they are served.
    pub chats: Vec<i64>,
    /// The text of the message.
    pub message: String,
    /// The images, each as base64 text.
    pub images: Vec<String>,
    /// The scheduled time, in the format of RFC 3339.
    pub datetime: String,
}

/// What is sent for a message, and in what order.
#[derive(Debug)]
pub struct Delivery {
    /// The text of the message.
    pub text: String,
    /// The images, decoded.
    pub images: Vec<Vec<u8>>,
    /// The sends, in order.
    pub sends: Vec<Outbound>,
}

/// Why nothing can be sent for a message.
#[derive(Debug, Clone, Copy, PartialEq, Eq, Structural)]
pub enum DeliveryError {
    /// The image at this position is not valid base64. The images before it
    /// are.
    UndecodableImage { position: usize },
}

/// What becomes of a row of the message queue in one pass of the dispatcher.
#[derive(Debug)]
pub enum Disposition {
    /// The scheduled time cannot be read. Nothing is sent and the row stays.
    KeepUnreadable,
    /// The scheduled time lies ahead. Nothing is sent and the row stays.
    KeepNotDue,
    /// The message is due. The sends are made, and then the row is removed,
    /// whatever became of the single sends.
    Deliver(Delivery),
    /// The message is due and cannot be sent. The row is removed.
    Discard(DeliveryError),
}

impl Disposition {
    /// Whether the row leaves the queue: it does once the message was due,
    /// and only then.
    pub fn removes_row(&self) -> (removed: bool)
        ensures
            removed == (self is Deliver || self is Discard),
    {
        match self {
            Disposition::Deliver(_) => true,
            Disposition::Discard(_) => true,
            Disposition::KeepUnreadable => false,
            Disposition::KeepNotDue => false,
        }
    }
}

/// The images of a message as the decoder reads them, in order.
pub open spec fn decodings(images: Seq<String>) -> Seq<Option<Seq<u8>>> {
    images.map_values(|image: String| base64_standard_bytes(image@))
}

/// The bytes of decoded images, in order.
pub open spec fn image_bytes(images: Seq<Vec<u8>>) -> Seq<Seq<u8>> {
    images.map_values(|image: Vec<u8>| image@)
}

/// The position of the first image that does not decode, if there is one.
pub open spec fn first_undecodable(decoded: Seq<Option<Seq<u8>>>) -> Option<int>
    decreases decoded.len(),
{
    if decoded.len() == 0 {
        None
    } else {
        match first_undecodable(decoded.drop_last()) {
            Some(position) => Some(position),
            None => if decoded.last().is_none() {
                Some(decoded.len() - 1)
            } else {
                None
            },
        }
    }
}

/// Decodes the images of a message, in order, up to the first that does not
/// decode.
pub fn decode_images(images: &Vec<String>) -> (outcome: Result<Vec<Vec<u8>>, DeliveryError>)
    ensures
        match outcome {
            Ok(decoded) => first_undecodable(decodings(images@)).is_none() && decoded.len()
                == images.len() && forall|i: int|
                0 <= i < images.len() ==> decodings(images@)[i] == Some(
                    #[trigger] image_bytes(decoded@)[i],
                ),
            Err(error) => first_undecodable(decodings(images@)) == Some(
                error->position as int,
            ),
        },
{
    let mut decoded: Vec<Vec<u8>> = Vec::new();
    let mut i: usize = 0;
    while i < images.len()
        invariant
            i <= images.len(),
            decoded.len() == i,
            first_undecodable(decodings(images@).take(i as int)).is_none(),
            forall|k: int|
                0 <= k < i ==> decodings(images@)[k] == Some(#[trigger] image_bytes(decoded@)[k]),
        decreases images.len() - i,
    {
        proof {
            lemma_prefix_contains(decodings(images@), i as int);
        }
        match decode_standard(images[i].as_str()) {
            Ok(bytes) => {
                let ghost before = decoded@;
                decoded.push(bytes);
                proof {
                    assert forall|k: int| 0 <= k < i + 1 implies decodings(images@)[k] == Some(
                        #[trigger] image_bytes(decoded@)[k],
                    ) by {
                        if k < i {
                            assert(image_bytes(decoded@)[k] == image_bytes(before)[k]);
                        }
                    }
                }
            },
            Err(_) => {
                proof {
                    lemma_first_undecodable_is_stable(decodings(images@), i as int);
                }
                return Err(DeliveryError::UndecodableImage { position: i });
            },
        }
        i = i + 1;
    }
    proof {
        assert(decodings(images@).take(images.len() as int) =~= decodings(images@));
    }
    Ok(decoded)
}

/// Once a prefix holds an image that does not decode, the first such image of
/// the whole list is the first of the prefix.
proof fn lemma_first_undecodable_is_stable(decoded: Seq<Option<Seq<u8>>>, position: int)
    requires
        0 <= position < decoded.len(),
        decoded[position].is_none(),
        first_undecodable(decoded.take(position)).is_none(),
    ensures
        first_undecodable(decoded) == Some(position),
    decreases decoded.len(),
{
    if position == decoded.len() - 1 {
        assert(decoded.take(position) =~= decoded.drop_last());
    } else {
        assert(decoded.drop_last().take(position) =~= decoded.take(position));
        lemma_first_undecodable_is_stable(decoded.drop_last(), position);
    }
}

/// What a message with the text `text` comes to, given how its images decode:
/// the delivery to `chats`, or the first image that does not decode.
pub open spec fn delivery_of(
    delivery: Result<Delivery, DeliveryError>,
    chats: Seq<i64>,
    text: Seq<char>,
    decoded: Seq<Option<Seq<u8>>>,
) -> bool {
    match delivery {
        Ok(delivery) => {
            &&& first_undecodable(decoded).is_none()
            &&& delivery.text@ == text
            &&& delivery.images.len() == decoded.len()
            &&& forall|i: int|
                0 <= i < decoded.len() ==> decoded[i] == Some(
                    #[trigger] image_bytes(delivery.images@)[i],
                )
            &&& delivery.sends@ == sends_for(chats, decoded.len())
        },
        Err(error) => first_undecodable(decoded) == Some(error->position as int),
    }
}

/// What becomes of the row `message` at the time `now`, given how its
/// scheduled time and its images are read.
pub open spec fn disposition_of(
    disposition: Disposition,
    message: QueuedMessage,
    now: Moment,
) -> bool {
    match readiness_at(moment_of(message.datetime@), now) {
        Readiness::Unreadable => disposition is KeepUnreadable,
        Readiness::NotDue => disposition is KeepNotDue,
        Readiness::Due => match disposition {
            Disposition::Deliver(delivery) => delivery_of(
                Ok(delivery),
                message.chats@,
                message.message@,
                decodings(message.images@),
            ),
            Disposition::Discard(error) => delivery_of(
                Err(error),
                message.chats@,
                message.message@,
                decodings(message.images@),
            ),
            _ => false,
        },
    }
}

impl AppState {
    /// Prepares the delivery of a message to `chats`: the images are
    /// decoded, and every target gets the images in media groups of at most
    /// ten and then the text. Where an image does not decode, nothing is
    /// sent to anybody.
    pub fn send_message_with_images_to_chats(
        &self,
        chats: Vec<i64>,
        message: String,
        images: Vec<String>,
    ) -> (outcome: Result<Delivery, DeliveryError>)
        ensures
            delivery_of(outcome, chats@, message@, decodings(images@)),
    {
        match decode_images(&images) {
            Ok(decoded) => {
                let sends = plan_sends(&chats, decoded.len());
                Ok(Delivery { text: message, images: decoded, sends })
            },
            Err(error) => Err(error),
        }
    }

    /// Decides what becomes of a row of the message queue at the time `now`.
    ///
    /// A row whose scheduled time cannot be read, or lies ahead, stays as it
    /// is. A row that is due is attempted once and then removed: whether the
    /// single sends succeed has no part in it.
    pub fn process_queued_message(&self, message: QueuedMessage, now: Moment) -> (disposition:
        Disposition)
        ensures
            disposition_of(disposition, message, now),
    {
        match readiness(parse_moment(message.datetime.as_str()), now) {
            Readiness::Unreadable => Disposition::KeepUnreadable,
            Readiness::NotDue => Disposition::KeepNotDue,
            Readiness::Due => {
                match self.send_message_with_images_to_chats(
                    message.chats,
                    message.message,
                    message.images,
                ) {
                    Ok(delivery) => Disposition::Deliver(delivery),
                    Err(error) => Disposition::Discard(error),
                }
            },
        }
    }
}

/// A row leaves the queue exactly if it was due, whatever its images and
/// whatever becomes of the sends.
pub proof fn lemma_row_removed_iff_due(disposition: Disposition, message: QueuedMessage, now: Moment)
    requires
        disposition_of(disposition, message, now),
    ensures
        (disposition is Deliver || disposition is Discard) <==> readiness_at(
            moment_of(message.datetime@),
            now,
        ) is Due,
        disposition is KeepNotDue <==> readiness_at(moment_of(message.datetime@), now) is NotDue,
        disposition is KeepUnreadable <==> moment_of(message.datetime@).is_none(),
{
}

/// Every media group of a delivery names images that the delivery holds: at
/// least one and at most ten.
pub proof fn lemma_media_groups_are_in_bounds(chats: Seq<i64>, images: nat, position: int)
    requires
        images <= usize::MAX,
        0 <= position < sends_for(chats, images).len(),
    ensures
        match sends_for(chats, images)[position] {
            Outbound::MediaGroup { chat_id, from, to } => chats.contains(chat_id) && from < to
                <= images && to - from <= MEDIA_GROUP_LIMIT,
            Outbound::Text { chat_id } => chats.contains(chat_id),
        },
    decreases chats.len(),
{
    let earlier = chats.drop_last();
    let before = sends_for(earlier, images);
    if position < before.len() {
        lemma_media_groups_are_in_bounds(earlier, images, position);
        match before[position] {
            Outbound::MediaGroup { chat_id, .. } => {
                lemma_last_contains(chats, chat_id);
            },
            Outbound::Text { chat_id } => {
                lemma_last_contains(chats, chat_id);
            },
        }
    } else {
        let part = position - before.len();
        lemma_last_contains(chats, chats.last());
        if part < batch_count(images) {
            lemma_batches_cover_images(chats.last(), images, part);
        }
    }
}

} // verus!
