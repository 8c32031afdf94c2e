use crate::prompt::LineMode;
use vstd::prelude::*;

verus! {

/// A decoded sound that can be played any number of times.
///
/// The buffer is `rodio`'s; nothing inside it is visible to the verifier.
/// The field is open so that the program can put a decoded buffer in and
/// hand a queued one to its sink.
#[verifier::external_body]
pub struct ShrsAudio {
    pub inner: rodio::source::Buffered<rodio::decoder::Decoder<std::io::Cursor<Vec<u8>>>>,
}

/// Where a sound's samples came from: the encoded bytes that were handed to
/// the decoder which produced them.
pub uninterp spec fn encoded(sound: ShrsAudio) -> Seq<u8>;

/// How many samples have been taken from a sound already; a sound from
/// which none was taken plays from its start.
pub uninterp spec fn taken(sound: ShrsAudio) -> nat;

/// What a sound is, as far as contracts speak of it.
pub struct Sound {
    /// The encoded bytes that its samples came from.
    pub source: Seq<u8>,
    /// How many of its samples have been taken already.
    pub taken: nat,
}

impl View for ShrsAudio {
    type V = Sound;

    open spec fn view(&self) -> Sound {
        Sound { source: encoded(*self), taken: taken(*self) }
    }
}

/// Calls `Clone::clone` of `rodio::source::Buffered`, which shares the
/// decoded samples and copies the place from which they are played.
///
/// Not proved, but taken from `rodio`: the samples of the copy came from
/// where those of the sound it was made of came from, and as many of them
/// count as taken.
#[verifier::external_body]
fn replay(sound: &ShrsAudio) -> (r: ShrsAudio)
    ensures
        encoded(r) == encoded(*sound),
        taken(r) == taken(*sound),
{
    ShrsAudio { inner: sound.inner.clone() }
}

/// One file of the asset directory, after the attempt to decode it.
pub struct AudioFile {
    /// The file's name, extension included.
    pub name: String,
    /// The sound that the file's content decoded to, if it decoded. It is
    /// meant to be whole and unplayed: a queued copy starts where it stands.
    pub decoded: Option<ShrsAudio>,
}

/// What came of reading one entry of the asset directory.
pub enum EntryRead {
    /// The entry itself could not be read from the directory.
    Failed,
    /// The entry was read, but its file could not be opened.
    Unopened,
    /// The file was opened, but its content could not be read.
    Unread,
    /// The file was read whole, and decoded or not.
    Read(AudioFile),
}

/// The files that a directory gave, in its order, or `None` where the
/// directory itself counts as unreadable: where an entry could not be read
/// from it. A file that could not be opened, or whose content could not be
/// read, is no sound: it is left out and stops nothing.
pub open spec fn listed(entries: Seq<EntryRead>) -> Option<Seq<AudioFile>>
    decreases entries.len(),
{
    if entries.len() == 0 {
        Some(Seq::empty())
    } else {
        match (listed(entries.drop_last()), entries.last()) {
            (Some(files), EntryRead::Read(file)) => Some(files.push(file)),
            (Some(files), EntryRead::Unopened) => Some(files),
            (Some(files), EntryRead::Unread) => Some(files),
            _ => None,
        }
    }
}

/// Gathers the files of a directory from what came of reading its entries.
pub fn listing(entries: Vec<EntryRead>) -> (files: Option<Vec<AudioFile>>)
    ensures
        match files {
            Some(files) => listed(entries@) == Some(files@),
            None => listed(entries@) is None,
        },
{
    let ghost all = entries@;
    let mut left = entries;
    let mut kept: Vec<AudioFile> = Vec::new();
    let mut done: usize = 0;
    assert(all.take(0) =~= Seq::<EntryRead>::empty());
    while done < left.len()
        invariant
            all == entries@,
            done <= left.len() == all.len(),
            forall|k: int| done <= k < all.len() ==> left[k] == all[k],
            listed(all.take(done as int)) == Some(kept@),
        decreases left.len() - done,
    {
        let mut entry = EntryRead::Unread;
        std::mem::swap(&mut left[done], &mut entry);
        proof {
            let upto = all.take(done + 1);
            assert(upto.drop_last() == all.take(done as int));
            assert(upto.last() == all[done as int]);
            assert(entry == all[done as int]);
        }
        match entry {
            EntryRead::Read(file) => {
                kept.push(file);
            },
            EntryRead::Unopened => {},
            EntryRead::Unread => {},
            EntryRead::Failed => {
                proof {
                    assert(listed(all.take(done + 1)) is None);
                    lemma_listed_stays_none(all, done + 1);
                }
                return None;
            },
        }
        done += 1;
    }
    assert(all.take(all.len() as int) == all);
    Some(kept)
}

/// A directory counts as unreadable exactly where one of its entries could
/// not be read from it: no file, whatever came of it, decides that.
pub proof fn listed_unless_an_entry_failed(entries: Seq<EntryRead>)
    ensures
        listed(entries) is None <==> exists|i: int|
            0 <= i < entries.len() && entries[i] is Failed,
    decreases entries.len(),
{
    if entries.len() > 0 {
        let front = entries.drop_last();
        listed_unless_an_entry_failed(front);
        if exists|i: int| 0 <= i < front.len() && front[i] is Failed {
            let i = choose|i: int| 0 <= i < front.len() && front[i] is Failed;
            assert(entries[i] is Failed);
        }
        if entries.last() is Failed {
            assert(entries[entries.len() - 1] is Failed);
        }
        if exists|i: int| 0 <= i < entries.len() && entries[i] is Failed {
            let i = choose|i: int| 0 <= i < entries.len() && entries[i] is Failed;
            if i < front.len() {
                assert(front[i] is Failed);
            }
        }
    }
}

/// Once a directory counts as unreadable, no further entry mends it.
proof fn lemma_listed_stays_none(entries: Seq<EntryRead>, upto: int)
    requires
        0 <= upto <= entries.len(),
        listed(entries.take(upto)) is None,
    ensures
        listed(entries) is None,
    decreases entries.len() - upto,
{
    if upto < entries.len() {
        let more = entries.take(upto + 1);
        assert(more.drop_last() == entries.take(upto));
        lemma_listed_stays_none(entries, upto + 1);
    } else {
        assert(entries.take(upto) == entries);
    }
}

/// Why the audio state could not be set up.
#[derive(Clone, Copy, Debug, PartialEq, Eq, Structural)]
pub enum InitError {
    /// The asset directory is missing or cannot be read.
    DirectoryUnavailable,
    /// No audio output device could be had.
    DeviceUnavailable,
}

/// Why a sound was not played.
#[derive(Debug, PartialEq, Eq)]
pub enum PlaybackError {
    /// No sound of this name is cached.
    NotFound(String),
    /// The output device does not take sounds.
    DeviceError,
}

impl InitError {
    /// What the error says, for a log.
    pub open spec fn text(self) -> Seq<char> {
        match self {
            InitError::DirectoryUnavailable => "Audio directory unavailable"@,
            InitError::DeviceUnavailable => "Audio output device unavailable"@,
        }
    }

    /// Writes the error out for a log.
    pub fn message(&self) -> (line: String)
        ensures
            line@ == self.text(),
    {
        match self {
            InitError::DirectoryUnavailable => String::from_str("Audio directory unavailable"),
            InitError::DeviceUnavailable => String::from_str("Audio output device unavailable"),
        }
    }
}

impl PlaybackError {
    /// What the error says, for a log.
    pub open spec fn text(self) -> Seq<char> {
        match self {
            PlaybackError::NotFound(name) => "Audio file '"@ + name@ + "' not found"@,
            PlaybackError::DeviceError => "Audio output device rejected the sound"@,
        }
    }

    /// Writes the error out for a log.
    pub fn message(&self) -> (line: String)
        ensures
            line@ == self.text(),
    {
        match self {
            PlaybackError::NotFound(name) => {
                let mut line = String::from_str("Audio file '");
                line.append(name.as_str());
                line.append("' not found");
                line
            },
            PlaybackError::DeviceError => String::from_str(
                "Audio output device rejected the sound",
            ),
        }
    }
}

/// What is left of a hook's outcome once the shell has been kept clear of
/// it: nothing after success, else the line to log.
pub open spec fn logged(outcome: Result<(), PlaybackError>) -> Option<Seq<char>> {
    match outcome {
        Ok(_) => None,
        Err(e) => Some(e.text()),
    }
}

/// Turns a hook's outcome into the line to log, if there is one. No outcome
/// is an error to the shell.
pub fn diagnostic(outcome: &Result<(), PlaybackError>) -> (line: Option<String>)
    ensures
        match line {
            Some(line) => logged(*outcome) == Some(line@),
            None => logged(*outcome) is None,
        },
{
    match outcome {
        Ok(_) => None,
        Err(e) => Some(e.message()),
    }
}

/// The sounds that a directory listing makes playable: every file that
/// decoded, under its own name. Of two files with one name the later stays.
pub open spec fn cached(files: Seq<AudioFile>) -> Map<Seq<char>, Sound>
    decreases files.len(),
{
    if files.len() == 0 {
        Map::empty()
    } else {
        let earlier = cached(files.drop_last());
        let file = files.last();
        match file.decoded {
            Some(sound) => earlier.insert(file.name@, sound@),
            None => earlier,
        }
    }
}

/// Every file that decoded is cached under its name.
pub proof fn decodable_file_is_cached(files: Seq<AudioFile>, i: int)
    requires
        0 <= i < files.len(),
        files[i].decoded is Some,
    ensures
        cached(files).contains_key(files[i].name@),
    decreases files.len(),
{
    if i < files.len() - 1 {
        decodable_file_is_cached(files.drop_last(), i);
    }
}

/// A name is cached only if a file of that name decoded, and what is cached
/// under it is the sound of such a file.
pub proof fn cached_name_has_decodable_file(files: Seq<AudioFile>, name: Seq<char>) -> (i: int)
    requires
        cached(files).contains_key(name),
    ensures
        0 <= i < files.len(),
        files[i].name@ == name,
        files[i].decoded matches Some(sound) && cached(files)[name] == sound@,
    decreases files.len(),
{
    let file = files.last();
    if file.decoded is Some && file.name@ == name {
        files.len() - 1
    } else {
        cached_name_has_decodable_file(files.drop_last(), name)
    }
}

/// A name whose files all failed to decode is not cached.
pub proof fn undecodable_name_is_absent(files: Seq<AudioFile>, name: Seq<char>)
    requires
        forall|i: int| 0 <= i < files.len() && files[i].name@ == name ==> files[i].decoded is None,
    ensures
        !cached(files).contains_key(name),
{
    if cached(files).contains_key(name) {
        let i = cached_name_has_decodable_file(files, name);
    }
}

/// Where no two files share a name, each file that decoded is cached with
/// its own sound.
pub proof fn cached_content_is_the_file(files: Seq<AudioFile>, i: int)
    requires
        forall|a: int, b: int| 0 <= a < b < files.len() ==> files[a].name@ != files[b].name@,
        0 <= i < files.len(),
        files[i].decoded is Some,
    ensures
        cached(files).contains_key(files[i].name@),
        cached(files)[files[i].name@] == files[i].decoded.unwrap()@,
{
    decodable_file_is_cached(files, i);
    let k = cached_name_has_decodable_file(files, files[i].name@);
    assert(k == i);
}

/// Where no sample was taken from any sound that a file decoded to, none
/// was taken from any cached sound: each plays from its start.
pub proof fn cached_sounds_are_unplayed(files: Seq<AudioFile>, name: Seq<char>)
    requires
        forall|i: int|
            0 <= i < files.len() ==> (#[trigger] files[i].decoded matches Some(sound) ==> taken(sound)
                == 0),
        cached(files).contains_key(name),
    ensures
        cached(files)[name].taken == 0,
{
    let i = cached_name_has_decodable_file(files, name);
    assert(files[i].decoded is Some);
}

/// The cache never holds more sounds than the directory held files.
pub proof fn cached_is_finite(files: Seq<AudioFile>)
    ensures
        cached(files).dom().finite(),
        cached(files).len() <= files.len(),
    decreases files.len(),
{
    if files.len() > 0 {
        cached_is_finite(files.drop_last());
    }
}

/// A sound on its way to the output device.
pub struct Playback {
    /// The name under which the sound was asked for.
    pub name: String,
    /// A copy of the cached sound, independent of any other that plays.
    pub sound: ShrsAudio,
    /// The loudness in hundredths of full scale, as it was asked for.
    pub volume: i32,
}

/// What a queued sound is, as far as contracts speak of it.
pub struct Request {
    pub name: Seq<char>,
    pub sound: Sound,
    pub volume: i32,
}

impl View for Playback {
    type V = Request;

    open spec fn view(&self) -> Request {
        Request { name: self.name@, sound: self.sound@, volume: self.volume }
    }
}

struct Asset {
    name: String,
    sound: ShrsAudio,
}

/// No two cached sounds share a name.
spec fn distinct(audios: Seq<Asset>) -> bool {
    forall|i: int, j: int| 0 <= i < j < audios.len() ==> audios[i].name@ != audios[j].name@
}

spec fn holds(audios: Seq<Asset>, name: Seq<char>) -> bool {
    exists|i: int| 0 <= i < audios.len() && #[trigger] audios[i].name@ == name
}

spec fn place(audios: Seq<Asset>, name: Seq<char>) -> int {
    choose|i: int| 0 <= i < audios.len() && #[trigger] audios[i].name@ == name
}

/// The map that a list of cached sounds stands for.
spec fn model(audios: Seq<Asset>) -> Map<Seq<char>, Sound> {
    Map::new(
        |name: Seq<char>| holds(audios, name),
        |name: Seq<char>| audios[place(audios, name)].sound@,
    )
}

proof fn lemma_model_at(audios: Seq<Asset>, i: int)
    requires
        distinct(audios),
        0 <= i < audios.len(),
    ensures
        model(audios).contains_key(audios[i].name@),
        model(audios)[audios[i].name@] == audios[i].sound@,
{
    let name = audios[i].name@;
    assert(holds(audios, name));
    let at = place(audios, name);
    assert(0 <= at < audios.len() && audios[at].name@ == name);
    assert(at == i);
}

/// A list without repeated names stands for a map of as many entries.
proof fn lemma_model_size(audios: Seq<Asset>)
    requires
        distinct(audios),
    ensures
        model(audios).dom().finite(),
        model(audios).len() == audios.len(),
    decreases audios.len(),
{
    if audios.len() == 0 {
        assert(model(audios).dom() =~= Set::<Seq<char>>::empty());
    } else {
        let front = audios.drop_last();
        let name = audios.last().name@;
        lemma_model_size(front);
        assert(!holds(front, name)) by {
            if holds(front, name) {
                let k = place(front, name);
                assert(audios[k].name@ == name);
            }
        }
        assert forall|n: Seq<char>| holds(audios, n) == (holds(front, n) || n == name) by {
            if holds(audios, n) {
                let k = place(audios, n);
                if k < front.len() {
                    assert(front[k].name@ == n);
                }
            }
            if holds(front, n) {
                let k = place(front, n);
                assert(audios[k].name@ == n);
            }
            if n == name {
                assert(audios[audios.len() - 1].name@ == n);
            }
        }
        assert(model(audios).dom() =~= model(front).dom().insert(name));
    }
}

/// Where the sound of this name stands, if one is cached.
fn find(audios: &Vec<Asset>, name: &String) -> (found: Option<usize>)
    ensures
        match found {
            Some(i) => i < audios.len() && audios[i as int].name@ == name@,
            None => !holds(audios@, name@),
        },
{
    let mut i: usize = 0;
    while i < audios.len()
        invariant
            i <= audios.len(),
            forall|k: int| 0 <= k < i ==> audios[k].name@ != name@,
        decreases audios.len() - i,
    {
        if audios[i].name == *name {
            return Some(i);
        }
        i += 1;
    }
    None
}

/// Caches a sound under a name, in place of the one that had the name before.
fn store(audios: &mut Vec<Asset>, name: String, sound: ShrsAudio)
    requires
        distinct(old(audios)@),
    ensures
        distinct(final(audios)@),
        model(final(audios)@) == model(old(audios)@).insert(name@, sound@),
{
    let ghost before = audios@;
    let ghost key = name@;
    let ghost source = sound@;
    match find(audios, &name) {
        Some(i) => {
            audios.set(i, Asset { name, sound });
            proof {
                let after = audios@;
                assert(forall|k: int| 0 <= k < after.len() ==> after[k].name@ == before[k].name@);
                assert(distinct(after));
                assert forall|n: Seq<char>| holds(after, n) == holds(before, n) by {
                    if holds(after, n) {
                        let k = place(after, n);
                        assert(before[k].name@ == n);
                    }
                    if holds(before, n) {
                        let k = place(before, n);
                        assert(after[k].name@ == n);
                    }
                }
                assert forall|n: Seq<char>| holds(after, n) implies model(after)[n] == model(
                    before,
                ).insert(key, source)[n] by {
                    let k = place(after, n);
                    lemma_model_at(after, k);
                    lemma_model_at(before, k);
                }
                assert(holds(before, key)) by {
                    assert(before[i as int].name@ == key);
                }
                assert(model(after) =~= model(before).insert(key, source));
            }
        },
        None => {
            audios.push(Asset { name, sound });
            proof {
                let after = audios@;
                assert(after == before.push(after.last()));
                assert(distinct(after)) by {
                    assert forall|a: int, b: int| 0 <= a < b < after.len() implies after[a].name@
                        != after[b].name@ by {
                        if b == after.len() - 1 {
                            assert(before[a].name@ == after[a].name@);
                        } else {
                            assert(before[a].name@ == after[a].name@);
                            assert(before[b].name@ == after[b].name@);
                        }
                    }
                }
                assert forall|n: Seq<char>| holds(after, n) == (holds(before, n) || n == key) by {
                    if holds(after, n) {
                        let k = place(after, n);
                        if k < before.len() {
                            assert(before[k].name@ == n);
                        }
                    }
                    if holds(before, n) {
                        let k = place(before, n);
                        assert(after[k].name@ == n);
                    }
                    if n == key {
                        assert(after[after.len() - 1].name@ == n);
                    }
                }
                assert forall|n: Seq<char>| holds(after, n) implies model(after)[n] == model(
                    before,
                ).insert(key, source)[n] by {
                    let k = place(after, n);
                    lemma_model_at(after, k);
                    if k < before.len() {
                        assert(before[k].name@ == n);
                        lemma_model_at(before, k);
                    }
                }
                assert(model(after) =~= model(before).insert(key, source));
            }
        },
    }
}

/// The sounds of the asset directory, decoded once and never changed after.
pub struct AssetCache {
    audios: Vec<Asset>,
}

impl AssetCache {
    #[verifier::type_invariant]
    spec fn names_differ(self) -> bool {
        distinct(self.audios@)
    }

    /// For each cached name, its sound.
    pub closed spec fn view(self) -> Map<Seq<char>, Sound> {
        model(self.audios@)
    }

    /// A cache without sounds.
    pub fn new() -> (cache: Self)
        ensures
            cache@ == Map::<Seq<char>, Sound>::empty(),
    {
        let cache = AssetCache { audios: Vec::new() };
        assert(cache@ =~= Map::<Seq<char>, Sound>::empty());
        cache
    }

    /// The cache with what became of one more file: its sound under its
    /// name, in place of any sound that had the name before, where the file
    /// decoded; the cache as it was where it did not.
    pub fn with_decoded(self, name: String, decoded: Option<ShrsAudio>) -> (cache: Self)
        ensures
            cache@ == match decoded {
                Some(sound) => self@.insert(name@, sound@),
                None => self@,
            },
    {
        proof {
            use_type_invariant(&self);
        }
        match decoded {
            Some(sound) => {
                let mut audios = self.audios;
                store(&mut audios, name, sound);
                AssetCache { audios }
            },
            None => self,
        }
    }

    /// Caches what the asset directory held; `listing` is `None` where the
    /// directory could not be read.
    ///
    /// Every file that decoded is cached under its name. One that did not
    /// is left out and stops nothing.
    pub fn build(listing: Option<Vec<AudioFile>>) -> (built: Result<Self, InitError>)
        ensures
            match built {
                Ok(cache) => listing matches Some(files) && cache@ == cached(files@),
                Err(e) => listing is None && e == InitError::DirectoryUnavailable,
            },
    {
        let mut left = match listing {
            Some(files) => files,
            None => {
                return Err(InitError::DirectoryUnavailable);
            },
        };
        let ghost all = left@;
        let mut cache = AssetCache::new();
        assert(all.take(0) =~= Seq::<AudioFile>::empty());
        let mut done: usize = 0;
        while done < left.len()
            invariant
                done <= left.len() == all.len(),
                forall|k: int| done <= k < all.len() ==> left[k] == all[k],
                cache@ == cached(all.take(done as int)),
            decreases left.len() - done,
        {
            let mut file = AudioFile { name: String::new(), decoded: None };
            std::mem::swap(&mut left[done], &mut file);
            proof {
                let upto = all.take(done + 1);
                assert(upto.drop_last() == all.take(done as int));
                assert(upto.last() == all[done as int]);
                assert(file == all[done as int]);
            }
            cache = cache.with_decoded(file.name, file.decoded);
            done += 1;
        }
        assert(all.take(all.len() as int) == all);
        Ok(cache)
    }

    /// Whether a sound of this name is cached.
    pub fn contains(&self, file_name: &str) -> (cached: bool)
        ensures
            cached == self@.contains_key(file_name@),
    {
        let wanted = String::from_str(file_name);
        find(&self.audios, &wanted).is_some()
    }

    /// How many sounds are cached.
    pub fn len(&self) -> (count: usize)
        ensures
            self@.dom().finite(),
            count == self@.len(),
    {
        proof {
            use_type_invariant(self);
            lemma_model_size(self.audios@);
        }
        self.audios.len()
    }

    /// A copy of the sound of this name, if one is cached. The copy stands
    /// where the cached sound stands, and the cached sound is never played.
    fn fresh(&self, file_name: &String) -> (copy: Option<ShrsAudio>)
        ensures
            match copy {
                Some(sound) => self@.contains_key(file_name@) && sound@ == self@[file_name@],
                None => !self@.contains_key(file_name@),
            },
    {
        proof {
            use_type_invariant(self);
        }
        match find(&self.audios, file_name) {
            Some(at) => {
                proof {
                    lemma_model_at(self.audios@, at as int);
                }
                Some(replay(&self.audios[at].sound))
            },
            None => None,
        }
    }
}

/// What one request to play does to the session: `after` is the state that
/// `before` becomes, and `played` what the request answers.
///
/// A cached name on a usable device puts exactly one sound at the end of
/// the queue, at the volume asked for. A name that is not cached is
/// `NotFound` with that name, else a device that takes no sounds is
/// `DeviceError`, and both leave the queue as it was. The cache and the
/// device's condition never change.
pub open spec fn plays(
    before: AudioStreamState,
    after: AudioStreamState,
    name: Seq<char>,
    volume: i32,
    played: Result<(), PlaybackError>,
) -> bool {
    &&& after.cache() == before.cache()
    &&& after.usable() == before.usable()
    &&& match played {
        Ok(_) => before.cache().contains_key(name) && before.usable() && after.queued()
            == before.queued().push(Request { name, sound: before.cache()[name], volume }),
        Err(PlaybackError::NotFound(missing)) => !before.cache().contains_key(name) && missing@
            == name && after.queued() == before.queued(),
        Err(PlaybackError::DeviceError) => before.cache().contains_key(name) && !before.usable()
            && after.queued() == before.queued(),
    }
}

/// The audio state of one session: the cached sounds, the sounds that wait
/// for the output device in the order in which they were asked for, and
/// whether the device takes sounds.
pub struct AudioStreamState {
    audios: AssetCache,
    queue: Vec<Playback>,
    device_usable: bool,
}

impl AudioStreamState {
    /// The cached sounds, each under its name.
    pub closed spec fn cache(self) -> Map<Seq<char>, Sound> {
        self.audios@
    }

    /// The sounds that wait for the device, the one asked for first in front.
    pub closed spec fn queued(self) -> Seq<Request> {
        self.queue@.map_values(|p: Playback| p@)
    }

    /// Whether the device takes sounds.
    pub closed spec fn usable(self) -> bool {
        self.device_usable
    }

    /// Sets the audio state up from what the asset directory held and from
    /// whether an output device was had.
    ///
    /// `listing` is `None` where the directory could not be read, and that is
    /// the error then, whatever the device. The sounds are cached as
    /// [`AssetCache::build`] says, and nothing waits for the device yet.
    pub fn new(listing: Option<Vec<AudioFile>>, device_available: bool) -> (made: Result<
        Self,
        InitError,
    >)
        ensures
            match made {
                Ok(state) => listing matches Some(files) && device_available && state.cache()
                    == cached(files@) && state.queued() == Seq::<Request>::empty()
                    && state.usable(),
                Err(InitError::DirectoryUnavailable) => listing is None,
                Err(InitError::DeviceUnavailable) => listing is Some && !device_available,
            },
    {
        match AssetCache::build(listing) {
            Ok(audios) => AudioStreamState::ready(audios, device_available),
            Err(e) => Err(e),
        }
    }

    /// Makes a session of sounds that are cached already, where an output
    /// device was had. Nothing waits for the device yet.
    pub fn ready(audios: AssetCache, device_available: bool) -> (made: Result<Self, InitError>)
        ensures
            match made {
                Ok(state) => device_available && state.cache() == audios@ && state.queued()
                    == Seq::<Request>::empty() && state.usable(),
                Err(e) => !device_available && e == InitError::DeviceUnavailable,
            },
    {
        if !device_available {
            return Err(InitError::DeviceUnavailable);
        }
        let state = AudioStreamState { audios, queue: Vec::new(), device_usable: true };
        assert(state.queued() =~= Seq::<Request>::empty());
        Ok(state)
    }

    /// Whether a sound of this name is cached.
    pub fn has_sound(&self, file_name: &str) -> (cached: bool)
        ensures
            cached == self.cache().contains_key(file_name@),
    {
        self.audios.contains(file_name)
    }

    /// Queues the sound of this name for the device, at this volume.
    ///
    /// The volume is in hundredths of full scale and is handed on as it is
    /// given: one above 100 is not cut down, nor one below 0 raised. What is
    /// queued is a copy of the cached sound, which stands where that sound
    /// stands. A name that is not cached, or a device that takes no sounds,
    /// is an error that changes nothing; the cache and the device's
    /// condition stay as they are in every case.
    pub fn play_sound(&mut self, file_name: &str, volume: i32) -> (played: Result<
        (),
        PlaybackError,
    >)
        ensures
            plays(*old(self), *final(self), file_name@, volume, played),
    {
        let wanted = String::from_str(file_name);
        let sound = match self.audios.fresh(&wanted) {
            Some(sound) => sound,
            None => {
                return Err(PlaybackError::NotFound(wanted));
            },
        };
        if !self.device_usable {
            return Err(PlaybackError::DeviceError);
        }
        let ghost before = self.queue@;
        let request = Playback { name: wanted, sound, volume };
        self.queue.push(request);
        proof {
            assert(self.queue@ == before.push(request));
            assert(self.queue@.map_values(|p: Playback| p@) =~= before.map_values(
                |p: Playback| p@,
            ).push(request@));
        }
        Ok(())
    }

    /// Hands over the sounds that wait, the one asked for first in front, and
    /// leaves none waiting.
    pub fn take_queued(&mut self) -> (taken: Vec<Playback>)
        ensures
            taken@.map_values(|p: Playback| p@) == old(self).queued(),
            final(self).queued() == Seq::<Request>::empty(),
            final(self).cache() == old(self).cache(),
            final(self).usable() == old(self).usable(),
    {
        let mut taken: Vec<Playback> = Vec::new();
        std::mem::swap(&mut self.queue, &mut taken);
        assert(self.queue@.map_values(|p: Playback| p@) =~= Seq::<Request>::empty());
        taken
    }

    /// Records whether the device takes sounds from now on.
    pub fn set_device_usable(&mut self, usable: bool)
        ensures
            final(self).usable() == usable,
            final(self).cache() == old(self).cache(),
            final(self).queued() == old(self).queued(),
    {
        self.device_usable = usable;
    }

    /// How many sounds are cached.
    pub fn sound_count(&self) -> (count: usize)
        ensures
            self.cache().dom().finite(),
            count == self.cache().len(),
    {
        self.audios.len()
    }
}

/// Loudness of the greeting and of the mode notification, in hundredths of
/// full scale.
pub const DEFAULT_VOLUME: i32 = 50;

/// Loudness of the sounds that follow a command, in hundredths of full scale.
pub const MODERATE_VOLUME: i32 = 30;

/// What a hook decided to play: a sound's name and its volume.
pub struct Cue {
    pub name: String,
    pub volume: i32,
}

impl View for Cue {
    type V = (Seq<char>, i32);

    open spec fn view(&self) -> (Seq<char>, i32) {
        (self.name@, self.volume)
    }
}

/// A decision as contracts speak of it.
pub open spec fn decided(cue: Option<Cue>) -> Option<(Seq<char>, i32)> {
    match cue {
        Some(cue) => Some(cue@),
        None => None,
    }
}

/// At the start of a session the greeting plays, whatever the state.
pub open spec fn startup_choice() -> Option<(Seq<char>, i32)> {
    Some(("meow.wav"@, DEFAULT_VOLUME))
}

/// Every change of the editing mode plays the same notification.
pub open spec fn switch_mode_choice(mode: LineMode) -> Option<(Seq<char>, i32)> {
    Some(("on.wav"@, DEFAULT_VOLUME))
}

/// Whether a command was too short to be given a sound: it ran for no longer
/// than the threshold. Where either is not known, no command is too short.
pub open spec fn too_short(elapsed_ms: Option<u64>, threshold_ms: Option<u64>) -> bool {
    match (elapsed_ms, threshold_ms) {
        (Some(elapsed), Some(threshold)) => elapsed <= threshold,
        _ => false,
    }
}

/// After a command, exit status zero plays the sound of success; any other
/// status, or none, plays the sound of failure. A command that was too short
/// plays nothing.
pub open spec fn command_finish_choice(
    status: Option<i32>,
    elapsed_ms: Option<u64>,
    threshold_ms: Option<u64>,
) -> Option<(Seq<char>, i32)> {
    if too_short(elapsed_ms, threshold_ms) {
        None
    } else if status == Some(0i32) {
        Some(("success.wav"@, MODERATE_VOLUME))
    } else {
        Some(("error.wav"@, MODERATE_VOLUME))
    }
}

/// The decision at the start of a session.
pub fn startup_cue() -> (cue: Option<Cue>)
    ensures
        decided(cue) == startup_choice(),
{
    Some(Cue { name: String::from_str("meow.wav"), volume: DEFAULT_VOLUME })
}

/// The decision when the editing mode changes to `mode`.
pub fn switch_mode_cue(mode: LineMode) -> (cue: Option<Cue>)
    ensures
        decided(cue) == switch_mode_choice(mode),
{
    Some(Cue { name: String::from_str("on.wav"), volume: DEFAULT_VOLUME })
}

/// The decision when a command has finished.
///
/// `status` is the exit status, if the command left one; `elapsed_ms` is how
/// long it ran, if that was measured; `threshold_ms` is the running time that
/// a command must exceed to be given a sound, `None` for no such limit.
pub fn command_finish_cue(
    status: Option<i32>,
    elapsed_ms: Option<u64>,
    threshold_ms: Option<u64>,
) -> (cue: Option<Cue>)
    ensures
        decided(cue) == command_finish_choice(status, elapsed_ms, threshold_ms),
{
    match (elapsed_ms, threshold_ms) {
        (Some(elapsed), Some(threshold)) => {
            if elapsed <= threshold {
                return None;
            }
        },
        _ => {},
    }
    match status {
        Some(0) => Some(Cue { name: String::from_str("success.wav"), volume: MODERATE_VOLUME }),
        _ => Some(Cue { name: String::from_str("error.wav"), volume: MODERATE_VOLUME }),
    }
}

/// What a hook does to the session's audio state, given what it chose.
///
/// With a state and a choice, the chosen sound is asked for once, as
/// [`plays`] says. Without a state, or without a choice, nothing changes and
/// nothing fails.
pub open spec fn follows(
    before: Option<AudioStreamState>,
    after: Option<AudioStreamState>,
    choice: Option<(Seq<char>, i32)>,
    outcome: Result<(), PlaybackError>,
) -> bool {
    match (before, choice) {
        (Some(earlier), Some((name, volume))) => after matches Some(later) && plays(
            earlier,
            later,
            name,
            volume,
            outcome,
        ),
        _ => after == before && outcome is Ok,
    }
}

/// Asks the session's audio state, if there is one, for the sound of a
/// decision, if there is one.
pub fn forward(state: &mut Option<AudioStreamState>, cue: Option<Cue>) -> (outcome: Result<
    (),
    PlaybackError,
>)
    ensures
        follows(*old(state), *final(state), decided(cue), outcome),
{
    match cue {
        Some(cue) => match state {
            Some(stream) => stream.play_sound(cue.name.as_str(), cue.volume),
            None => Ok(()),
        },
        None => Ok(()),
    }
}

/// The hook for the start of a session.
pub fn startup_sfx(state: &mut Option<AudioStreamState>) -> (outcome: Result<(), PlaybackError>)
    ensures
        follows(*old(state), *final(state), startup_choice(), outcome),
{
    forward(state, startup_cue())
}

/// The hook for a change of the editing mode.
pub fn switch_mode_sfx(state: &mut Option<AudioStreamState>, mode: LineMode) -> (outcome: Result<
    (),
    PlaybackError,
>)
    ensures
        follows(*old(state), *final(state), switch_mode_choice(mode), outcome),
{
    forward(state, switch_mode_cue(mode))
}

/// The hook for the end of a command.
pub fn command_finish_sfx(
    state: &mut Option<AudioStreamState>,
    status: Option<i32>,
    elapsed_ms: Option<u64>,
    threshold_ms: Option<u64>,
) -> (outcome: Result<(), PlaybackError>)
    ensures
        follows(
            *old(state),
            *final(state),
            command_finish_choice(status, elapsed_ms, threshold_ms),
            outcome,
        ),
{
    forward(state, command_finish_cue(status, elapsed_ms, threshold_ms))
}

} // verus!
