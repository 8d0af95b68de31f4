//! The refresher: how a generation is built from what the remote side gave,
//! and the cycle of rebuilding and sleeping that keeps the cache current.

use crate::cache::{
    dir_named, first_where, is_generation, lemma_first_from, with_folder, FileView, Folder,
    FolderCache, FolderView,
};
use crate::fs::TelegramFS;
use crate::ident::{file_ino_of, folder_ino_of};
use crate::media::{file_extension, file_name_text, joined, Download, RemoteMediaItem};
use vstd::prelude::*;

verus! {

/// Seconds between the end of one rebuild and the start of the next.
pub const REFRESH_DELAY_SECS: u64 = 10;

/// One media item of a conversation and how its transfer ended.
#[derive(Debug)]
pub struct FetchedMedia {
    pub item: RemoteMediaItem,
    pub download: Download,
}

/// One conversation as the remote side gave it: its name, and its media
/// items in the order in which its messages were enumerated.
#[derive(Debug)]
pub struct FetchedConversation {
    pub name: String,
    pub media: Vec<FetchedMedia>,
}

/// The directory that the first `count` media items of a conversation called
/// `name` make.
pub open spec fn folder_from(name: Seq<char>, media: Seq<FetchedMedia>, count: int) -> FolderView
    decreases count,
{
    if count <= 0 {
        FolderView { name, files: Seq::empty() }
    } else {
        folder_from(name, media, count - 1).with_media(
            media[count - 1].item,
            media[count - 1].download,
        )
    }
}

/// The directory that a conversation makes.
pub open spec fn folder_of(conversation: FetchedConversation) -> FolderView {
    folder_from(conversation.name@, conversation.media@, conversation.media@.len() as int)
}

/// The generation that the first `count` conversations make: each one with a
/// name hands in its directory, in turn; one without a name is passed over.
pub open spec fn generation_from(conversations: Seq<FetchedConversation>, count: int) -> Seq<
    FolderView,
>
    decreases count,
{
    if count <= 0 {
        Seq::empty()
    } else {
        let earlier = generation_from(conversations, count - 1);
        let conversation = conversations[count - 1];
        if conversation.name@.len() == 0 {
            earlier
        } else {
            with_folder(earlier, folder_of(conversation))
        }
    }
}

/// The generation that a full enumeration makes.
pub open spec fn generation_of(conversations: Seq<FetchedConversation>) -> Seq<FolderView> {
    generation_from(conversations, conversations.len() as int)
}

/// Builds the directory of one conversation, or none where the conversation
/// has no name.
pub fn build_folder(conversation: &FetchedConversation) -> (folder: Option<Folder>)
    ensures
        folder is None <==> conversation.name@.len() == 0,
        folder matches Some(f) ==> f@ == folder_of(*conversation),
{
    match Folder::begin(conversation.name.as_str()) {
        Some(mut folder) => {
            let mut k: usize = 0;
            while k < conversation.media.len()
                invariant
                    k <= conversation.media.len(),
                    folder@ == folder_from(conversation.name@, conversation.media@, k as int),
                decreases conversation.media.len() - k,
            {
                let fetched = &conversation.media[k];
                folder.add_media(&fetched.item, &fetched.download);
                k += 1;
            }
            Some(folder)
        },
        None => None,
    }
}

/// Builds a generation from a full enumeration of the remote conversations.
pub fn build_generation(conversations: &Vec<FetchedConversation>) -> (cache: FolderCache)
    ensures
        cache@ == generation_of(conversations@),
        is_generation(cache@),
{
    let mut cache = FolderCache::new();
    let mut i: usize = 0;
    while i < conversations.len()
        invariant
            i <= conversations.len(),
            cache@ == generation_from(conversations@, i as int),
            is_generation(cache@),
        decreases conversations.len() - i,
    {
        match build_folder(&conversations[i]) {
            Some(folder) => {
                cache.insert(folder);
            },
            None => {},
        }
        i += 1;
    }
    cache
}

/// Where the refresher stands in its cycle.
#[derive(Clone, Copy, Debug, PartialEq, Eq, Structural)]
pub enum RefreshState {
    /// A rebuild is under way.
    Refreshing,
    /// The refresher sleeps until the next rebuild is due.
    Idle,
}

/// What the loop around the refresher reports to it.
#[derive(Debug)]
pub enum RefreshEvent {
    /// The enumeration went through and made this generation.
    Rebuilt(FolderCache),
    /// The enumeration broke off.
    Failed,
    /// The delay is over.
    Woke,
}

/// What the loop around the refresher is to do next.
#[derive(Clone, Copy, Debug, PartialEq, Eq, Structural)]
pub enum RefreshAction {
    /// Enumerate the remote side and build a generation.
    Rebuild,
    /// Sleep for so many seconds.
    Sleep(u64),
    /// Go on as before: the event was not one that the state waits for.
    Nothing,
}

/// The state that follows `state` on `event`. A rebuild ends in sleep
/// whether it went through or not, and sleep ends in the next rebuild.
pub open spec fn next_state(state: RefreshState, event: RefreshEvent) -> RefreshState {
    match (state, event) {
        (RefreshState::Refreshing, RefreshEvent::Rebuilt(_)) => RefreshState::Idle,
        (RefreshState::Refreshing, RefreshEvent::Failed) => RefreshState::Idle,
        (RefreshState::Idle, RefreshEvent::Woke) => RefreshState::Refreshing,
        _ => state,
    }
}

/// The action that `event` calls for in `state`.
pub open spec fn next_action(state: RefreshState, event: RefreshEvent) -> RefreshAction {
    match (state, event) {
        (RefreshState::Refreshing, RefreshEvent::Rebuilt(_)) => RefreshAction::Sleep(
            REFRESH_DELAY_SECS,
        ),
        (RefreshState::Refreshing, RefreshEvent::Failed) => RefreshAction::Sleep(
            REFRESH_DELAY_SECS,
        ),
        (RefreshState::Idle, RefreshEvent::Woke) => RefreshAction::Rebuild,
        _ => RefreshAction::Nothing,
    }
}

/// The generation that is served after `event` in `state`: the new one after
/// a rebuild that went through, the current one in every other case.
pub open spec fn served_after(
    current: Seq<FolderView>,
    state: RefreshState,
    event: RefreshEvent,
) -> Seq<FolderView> {
    match (state, event) {
        (RefreshState::Refreshing, RefreshEvent::Rebuilt(generation)) => generation@,
        _ => current,
    }
}

/// The refresher at startup: the first rebuild is due at once.
pub fn start_refresher() -> (begin: (RefreshState, RefreshAction))
    ensures
        begin == (RefreshState::Refreshing, RefreshAction::Rebuild),
{
    (RefreshState::Refreshing, RefreshAction::Rebuild)
}

/// One step of the refresher. A generation that a rebuild made is swapped in
/// whole; after a rebuild that broke off the current generation stays.
pub fn on_refresh_event(fs: &mut TelegramFS, state: RefreshState, event: RefreshEvent) -> (step: (
    RefreshState,
    RefreshAction,
))
    ensures
        step.0 == next_state(state, event),
        step.1 == next_action(state, event),
        final(fs)@ == served_after(old(fs)@, state, event),
        is_generation(final(fs)@),
{
    proof {
        use_type_invariant(&*fs);
    }
    match state {
        RefreshState::Refreshing => match event {
            RefreshEvent::Rebuilt(generation) => {
                fs.replace(generation);
                (RefreshState::Idle, RefreshAction::Sleep(REFRESH_DELAY_SECS))
            },
            RefreshEvent::Failed => (RefreshState::Idle, RefreshAction::Sleep(REFRESH_DELAY_SECS)),
            RefreshEvent::Woke => (RefreshState::Refreshing, RefreshAction::Nothing),
        },
        RefreshState::Idle => match event {
            RefreshEvent::Woke => (RefreshState::Refreshing, RefreshAction::Rebuild),
            _ => (RefreshState::Idle, RefreshAction::Nothing),
        },
    }
}

/// The media items whose transfer came through.
pub open spec fn came_through() -> spec_fn(FetchedMedia) -> bool {
    |m: FetchedMedia| m.download is Complete
}

/// The file that a media item whose transfer came through becomes under the
/// identifier `ino`.
pub open spec fn file_of(fetched: FetchedMedia, ino: int) -> FileView {
    FileView {
        ino: ino as u64,
        name: file_name_text(fetched.item.message_id as int, file_extension(fetched.item.media)),
        content: joined(fetched.download->Complete_0@),
    }
}

/// The conversations that leave a directory in a generation: those that have
/// a name and at least one file.
pub open spec fn leaves_directory() -> spec_fn(FetchedConversation) -> bool {
    |c: FetchedConversation| c.name@.len() > 0 && folder_of(c).files.len() > 0
}

/// The directory of each conversation, in order.
pub open spec fn folders_of(conversations: Seq<FetchedConversation>) -> Seq<FolderView> {
    conversations.map_values(|c: FetchedConversation| folder_of(c))
}

proof fn lemma_folder_from_holds_what_came_through(
    name: Seq<char>,
    media: Seq<FetchedMedia>,
    count: int,
)
    requires
        0 <= count <= media.len(),
        file_ino_of(folder_ino_of(name), media.take(count).filter(came_through()).len() as int)
            <= u64::MAX + 1,
    ensures
        folder_from(name, media, count).name == name,
        folder_from(name, media, count).files == Seq::new(
            media.take(count).filter(came_through()).len(),
            |j: int|
                file_of(
                    media.take(count).filter(came_through())[j],
                    file_ino_of(folder_ino_of(name), j),
                ),
        ),
    decreases count,
{
    reveal(Seq::filter);
    if count > 0 {
        assert(media.take(count).drop_last() =~= media.take(count - 1));
        lemma_folder_from_holds_what_came_through(name, media, count - 1);
    }
}

/// As long as identifiers are left, the directory of a conversation holds one
/// file for each media item whose transfer came through, in the order of the
/// items and numbered from the identifier after the directory's own.
pub proof fn lemma_folder_holds_what_came_through(conversation: FetchedConversation)
    requires
        file_ino_of(
            folder_ino_of(conversation.name@),
            conversation.media@.filter(came_through()).len() as int,
        ) <= u64::MAX + 1,
    ensures
        folder_of(conversation).name == conversation.name@,
        folder_of(conversation).files == Seq::new(
            conversation.media@.filter(came_through()).len(),
            |j: int|
                file_of(
                    conversation.media@.filter(came_through())[j],
                    file_ino_of(folder_ino_of(conversation.name@), j),
                ),
        ),
{
    let media = conversation.media@;
    assert(media.take(media.len() as int) =~= media);
    lemma_folder_from_holds_what_came_through(conversation.name@, media, media.len() as int);
}

proof fn lemma_folder_from_name(name: Seq<char>, media: Seq<FetchedMedia>, count: int)
    ensures
        folder_from(name, media, count).name == name,
    decreases count,
{
    if count > 0 {
        lemma_folder_from_name(name, media, count - 1);
    }
}

proof fn lemma_generation_from_distinct_names(
    conversations: Seq<FetchedConversation>,
    count: int,
)
    requires
        0 <= count <= conversations.len(),
        forall|i: int, j: int|
            0 <= i < j < conversations.len() ==> (#[trigger] conversations[i]).name@ != (
            #[trigger] conversations[j]).name@,
    ensures
        generation_from(conversations, count) == folders_of(
            conversations.take(count).filter(leaves_directory()),
        ),
        forall|i: int|
            0 <= i < generation_from(conversations, count).len() ==> exists|k: int|
                0 <= k < count && (#[trigger] conversations[k]).name@ == (
                #[trigger] generation_from(conversations, count)[i]).name,
    decreases count,
{
    reveal(Seq::filter);
    if count > 0 {
        let earlier = generation_from(conversations, count - 1);
        let conversation = conversations[count - 1];
        lemma_generation_from_distinct_names(conversations, count - 1);
        lemma_folder_from_name(
            conversation.name@,
            conversation.media@,
            conversation.media@.len() as int,
        );
        assert(conversations.take(count).drop_last() =~= conversations.take(count - 1));
        assert forall|i: int| 0 <= i < earlier.len() implies (#[trigger] earlier[i]).name
            != conversation.name@ by {
            let k = choose|k: int|
                0 <= k < count - 1 && (#[trigger] conversations[k]).name@ == earlier[i].name;
            assert(conversations[k].name@ != conversations[count - 1].name@);
        }
        lemma_first_from(earlier, dir_named(conversation.name@), 0);
        let now = generation_from(conversations, count);
        assert forall|i: int| 0 <= i < now.len() implies exists|k: int|
            0 <= k < count && (#[trigger] conversations[k]).name@ == (#[trigger] now[i]).name by {
            if i < earlier.len() {
                let k = choose|k: int|
                    0 <= k < count - 1 && (#[trigger] conversations[k]).name@ == earlier[i].name;
                assert(conversations[k].name@ == now[i].name);
            } else {
                assert(conversations[count - 1].name@ == now[i].name);
            }
        }
    }
}

/// Where no two conversations share a name, the generation holds, in the
/// order of the enumeration, the directories of exactly those conversations
/// that have a name and yielded at least one file.
pub proof fn lemma_generation_of_distinct_names(conversations: Seq<FetchedConversation>)
    requires
        forall|i: int, j: int|
            0 <= i < j < conversations.len() ==> (#[trigger] conversations[i]).name@ != (
            #[trigger] conversations[j]).name@,
    ensures
        generation_of(conversations) == folders_of(conversations.filter(leaves_directory())),
{
    assert(conversations.take(conversations.len() as int) =~= conversations);
    lemma_generation_from_distinct_names(conversations, conversations.len() as int);
}

/// The cycle has no end: a rebuild leads to sleep whether it went through or
/// broke off, and sleep leads to the next rebuild.
pub proof fn lemma_cycle_goes_on(generation: FolderCache)
    ensures
        next_state(RefreshState::Refreshing, RefreshEvent::Rebuilt(generation))
            == RefreshState::Idle,
        next_state(RefreshState::Refreshing, RefreshEvent::Failed) == RefreshState::Idle,
        next_state(RefreshState::Idle, RefreshEvent::Woke) == RefreshState::Refreshing,
        next_action(RefreshState::Idle, RefreshEvent::Woke) == RefreshAction::Rebuild,
{
}

/// What is served changes in one way only, by a rebuild that went through,
/// and then to the generation that the rebuild made: while rebuilds break
/// off, the last generation that was swapped in stays.
pub proof fn lemma_served_until_rebuilt(
    current: Seq<FolderView>,
    state: RefreshState,
    event: RefreshEvent,
)
    ensures
        served_after(current, state, event) != current ==> state == RefreshState::Refreshing
            && event is Rebuilt,
        event matches RefreshEvent::Rebuilt(generation) ==> served_after(
            current,
            RefreshState::Refreshing,
            event,
        ) == generation@,
        served_after(current, state, RefreshEvent::Failed) == current,
        served_after(current, state, RefreshEvent::Woke) == current,
{
}

} // verus!
