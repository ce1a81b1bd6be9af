//! What a Linux host shows of its hardware.

use vstd::prelude::*;

use crate::capability::{self, HostCapabilities, PiModel};
use crate::frontend::HardwareTarget;
use crate::text;

verus! {

/// Where a probe looks for a host.
#[derive(Debug, PartialEq, Eq)]
pub struct LinuxCapabilityProbe {
    pub root: String,
}

/// What was found under the root of a host.
#[derive(Debug, PartialEq, Eq)]
pub struct HostObservations {
    /// The contents of the files that name the model of the host, as far as they could
    /// be read, in the order of `model_locations`.
    pub models: Vec<String>,
    /// There is `/dev/video0`.
    pub has_video_device: bool,
    /// There are entries in `/sys/class/video4linux`.
    pub has_video_entries: bool,
    /// The contents of the `name` files of these entries.
    pub video_names: Vec<String>,
    /// There is `/dev/media0`.
    pub has_media_device: bool,
    /// There are entries in `/sys/class/media`.
    pub has_media_entries: bool,
    /// The contents of the `model` files of these entries.
    pub media_models: Vec<String>,
    /// There is `/usr/bin/libcamera-hello`.
    pub has_libcamera_hello: bool,
    /// There is `/usr/bin/libcamera-still`.
    pub has_libcamera_still: bool,
    /// There is `/usr/bin/libcamera-vid`.
    pub has_libcamera_vid: bool,
}

// ---------------------------------------------------------------------------
// Texts
// ---------------------------------------------------------------------------

/// A text without the characters `c` at its start.
pub open spec fn without_leading(s: Seq<char>, c: char) -> Seq<char>
    decreases s.len(),
{
    if s.len() > 0 && s[0] == c {
        without_leading(s.drop_first(), c)
    } else {
        s
    }
}

/// A text without the characters `c` at its end.
pub open spec fn without_trailing(s: Seq<char>, c: char) -> Seq<char>
    decreases s.len(),
{
    if s.len() > 0 && s.last() == c {
        without_trailing(s.drop_last(), c)
    } else {
        s
    }
}

/// What the contents of a file say: nulls at either end, and then white space at either
/// end, do not count. A file that says nothing counts as none.
pub open spec fn clean(contents: Seq<char>) -> Option<Seq<char>> {
    let said = text::trimmed(without_trailing(without_leading(contents, '\0'), '\0'));
    if said.len() == 0 {
        None
    } else {
        Some(said)
    }
}

fn trim_leading<'a>(s: &'a str, c: char) -> (r: &'a str)
    ensures
        r@ == without_leading(s@, c),
{
    let chars = text::chars_of(s);
    let mut start: usize = 0;
    assert(s@.skip(0) == s@);
    while start < chars.len() && chars[start] == c
        invariant
            start <= chars@.len(),
            chars@ == s@,
            without_leading(s@, c) == without_leading(s@.skip(start as int), c),
        decreases chars@.len() - start,
    {
        assert(s@.skip(start as int).drop_first() == s@.skip(start + 1));
        start += 1;
    }
    assert(s@.skip(start as int) == s@.subrange(start as int, s@.len() as int));
    s.substring_char(start, chars.len())
}

fn trim_trailing<'a>(s: &'a str, c: char) -> (r: &'a str)
    ensures
        r@ == without_trailing(s@, c),
{
    let chars = text::chars_of(s);
    let mut end: usize = chars.len();
    assert(s@.take(end as int) == s@);
    while end > 0 && chars[end - 1] == c
        invariant
            end <= chars@.len(),
            chars@ == s@,
            without_trailing(s@, c) == without_trailing(s@.take(end as int), c),
        decreases end,
    {
        assert(s@.take(end as int).drop_last() == s@.take(end - 1));
        end -= 1;
    }
    assert(s@.take(end as int) == s@.subrange(0, end as int));
    s.substring_char(0, end)
}

/// What the contents of a file say.
pub fn clean_text(contents: &str) -> (r: Option<String>)
    ensures
        match r {
            Some(said) => clean(contents@) == Some(said@),
            None => clean(contents@) is None,
        },
{
    let said = text::trim(trim_trailing(trim_leading(contents, '\0'), '\0'));
    proof {
        reveal_strlit("");
        assert(said@.len() == 0 ==> said@ =~= ""@);
    }
    if text::same(said, "") {
        None
    } else {
        Some(said.to_owned())
    }
}

// ---------------------------------------------------------------------------
// Places
// ---------------------------------------------------------------------------

/// A path below a root: the root, one slash, and the path without its leading slashes.
/// Below an empty root it is the path alone.
pub open spec fn below(root: Seq<char>, relative: Seq<char>) -> Seq<char> {
    let path = without_leading(relative, '/');
    if root.len() == 0 || root.last() == '/' {
        root + path
    } else {
        root + seq!['/'] + path
    }
}

/// The files that name the model of a host, in the order in which they are read.
pub fn model_locations() -> (r: [&'static str; 2])
    ensures
        r@.len() == 2,
        r@[0]@ == "/proc/device-tree/model"@,
        r@[1]@ == "/sys/firmware/devicetree/base/model"@,
{
    ["/proc/device-tree/model", "/sys/firmware/devicetree/base/model"]
}

impl Default for LinuxCapabilityProbe {
    fn default() -> (r: Self)
        ensures
            r.root@ == "/"@,
    {
        LinuxCapabilityProbe::new()
    }
}

impl Clone for LinuxCapabilityProbe {
    fn clone(&self) -> (r: Self)
        ensures
            r == *self,
    {
        LinuxCapabilityProbe { root: self.root.clone() }
    }
}

impl LinuxCapabilityProbe {
    /// Looks at this host.
    pub fn new() -> (r: Self)
        ensures
            r.root@ == "/"@,
    {
        LinuxCapabilityProbe { root: "/".to_owned() }
    }

    /// Looks at the host whose files lie below a directory.
    pub fn with_root(root: &str) -> (r: Self)
        ensures
            r.root@ == root@,
    {
        LinuxCapabilityProbe { root: root.to_owned() }
    }

    /// Where a file of the host lies.
    pub fn resolve(&self, relative: &str) -> (r: String)
        ensures
            r@ == below(self.root@, relative@),
    {
        let path = trim_leading(relative, '/');
        let root = text::chars_of(self.root.as_str());
        if root.len() == 0 || root[root.len() - 1] == '/' {
            text::join2(self.root.as_str(), path)
        } else {
            proof {
                reveal_strlit("/");
                assert("/"@ =~= seq!['/']);
            }
            text::join3(self.root.as_str(), "/", path)
        }
    }

    /// What a host can do, given what was found of it.
    pub fn report(&self, hardware_target: HardwareTarget, found: &HostObservations) -> (r:
        HostCapabilities)
        ensures
            r == observed_capabilities(hardware_target, *found),
    {
        let model = detect_pi_model(&found.models);
        let video_names = said_by(&found.video_names);
        let media_models = said_by(&found.media_models);
        let mut host = HostCapabilities::default();
        host.v4l2_available = found.has_video_device || found.has_video_entries;
        host.libcamera_available = found.has_libcamera_hello || found.has_libcamera_still
            || found.has_libcamera_vid;
        host.pi_model = model;
        host.has_pi4_h264_encoder = detect_pi4_h264_encoder(model, &video_names, &media_models);
        host.has_pi5_stateless_decoder = detect_pi5_stateless_decoder(
            hardware_target,
            model,
            &video_names,
            &media_models,
            found.has_media_device || found.has_media_entries,
        );
        host
    }
}

/// A probe that looks at this host.
pub fn linux_capability_probe() -> (r: LinuxCapabilityProbe)
    ensures
        r.root@ == "/"@,
{
    LinuxCapabilityProbe::new()
}

// ---------------------------------------------------------------------------
// Findings
// ---------------------------------------------------------------------------

/// The texts of strings.
pub open spec fn texts(strings: Seq<String>) -> Seq<Seq<char>> {
    Seq::new(strings.len(), |i: int| strings[i]@)
}

/// What files say, without those that say nothing.
pub open spec fn all_clean(contents: Seq<String>) -> Seq<Seq<char>>
    decreases contents.len(),
{
    if contents.len() == 0 {
        Seq::empty()
    } else {
        let front = all_clean(contents.drop_last());
        match clean(contents.last()@) {
            Some(said) => front.push(said),
            None => front,
        }
    }
}

fn said_by(contents: &Vec<String>) -> (r: Vec<String>)
    ensures
        texts(r@) == all_clean(contents@),
{
    let mut said: Vec<String> = Vec::new();
    let mut i: usize = 0;
    assert(contents@.take(0) == Seq::<String>::empty());
    assert(texts(said@) =~= all_clean(contents@.take(0)));
    while i < contents.len()
        invariant
            i <= contents@.len(),
            texts(said@) == all_clean(contents@.take(i as int)),
        decreases contents@.len() - i,
    {
        let ghost before = texts(said@);
        assert(contents@.take(i + 1).drop_last() == contents@.take(i as int));
        if let Some(one) = clean_text(contents[i].as_str()) {
            said.push(one);
            assert(texts(said@) =~= before.push(one@));
        }
        i += 1;
    }
    assert(contents@.take(i as int) == contents@);
    said
}

/// The model that a text names.
pub open spec fn named_model(said: Seq<char>) -> Option<PiModel> {
    if text::has_substring(text::lower(said), "raspberry pi 5"@) {
        Some(PiModel::Pi5)
    } else if text::has_substring(text::lower(said), "raspberry pi 4"@) {
        Some(PiModel::Pi4)
    } else {
        None
    }
}

/// The model that the first file with a known one names.
pub open spec fn model_of(contents: Seq<String>) -> Option<PiModel>
    decreases contents.len(),
{
    if contents.len() == 0 {
        None
    } else {
        let first = match clean(contents[0]@) {
            Some(said) => named_model(said),
            None => None,
        };
        match first {
            Some(model) => Some(model),
            None => model_of(contents.drop_first()),
        }
    }
}

/// Finds out the model of a host.
pub fn detect_pi_model(contents: &Vec<String>) -> (r: Option<PiModel>)
    ensures
        r == model_of(contents@),
{
    let mut i: usize = 0;
    assert(contents@.skip(0) == contents@);
    while i < contents.len()
        invariant
            i <= contents@.len(),
            model_of(contents@) == model_of(contents@.skip(i as int)),
        decreases contents@.len() - i,
    {
        assert(contents@.skip(i as int).drop_first() == contents@.skip(i + 1));
        if let Some(said) = clean_text(contents[i].as_str()) {
            let name = text::to_ascii_lowercase(said.as_str());
            if text::contains(name.as_str(), "raspberry pi 5") {
                return Some(PiModel::Pi5);
            }
            if text::contains(name.as_str(), "raspberry pi 4") {
                return Some(PiModel::Pi4);
            }
        }
        i += 1;
    }
    None
}

/// Whether a name holds all of the tokens, in any case of letters.
pub open spec fn name_matches(name: Seq<char>, tokens: Seq<Seq<char>>) -> bool {
    forall|i: int|
        0 <= i < tokens.len() ==> text::has_substring(text::lower(name), #[trigger] tokens[i])
}

/// Whether any of the names holds all of the tokens.
pub open spec fn some_name_matches(names: Seq<Seq<char>>, tokens: Seq<Seq<char>>) -> bool {
    exists|i: int| 0 <= i < names.len() && name_matches(#[trigger] names[i], tokens)
}

/// The texts of tokens.
pub open spec fn token_texts(tokens: Seq<&str>) -> Seq<Seq<char>> {
    Seq::new(tokens.len(), |i: int| tokens[i]@)
}

fn holds_all(name: &str, tokens: &Vec<&str>) -> (r: bool)
    ensures
        r == name_matches(name@, token_texts(tokens@)),
{
    let lowered = text::to_ascii_lowercase(name);
    let mut i: usize = 0;
    while i < tokens.len()
        invariant
            i <= tokens@.len(),
            lowered@ == text::lower(name@),
            forall|k: int|
                0 <= k < i ==> text::has_substring(
                    text::lower(name@),
                    #[trigger] token_texts(tokens@)[k],
                ),
        decreases tokens@.len() - i,
    {
        assert(token_texts(tokens@)[i as int] == tokens@[i as int]@);
        if !text::contains(lowered.as_str(), tokens[i]) {
            return false;
        }
        i += 1;
    }
    true
}

/// Whether any of the names holds all of the tokens.
pub fn any_name_matches(names: &Vec<String>, tokens: &Vec<&str>) -> (r: bool)
    ensures
        r == some_name_matches(texts(names@), token_texts(tokens@)),
{
    let mut i: usize = 0;
    while i < names.len()
        invariant
            i <= names@.len(),
            forall|k: int|
                0 <= k < i ==> !name_matches(#[trigger] texts(names@)[k], token_texts(tokens@)),
        decreases names@.len() - i,
    {
        assert(texts(names@)[i as int] == names@[i as int]@);
        if holds_all(names[i].as_str(), tokens) {
            return true;
        }
        i += 1;
    }
    false
}

/// Whether the names of a host show the encoder of a Raspberry Pi 4.
pub open spec fn shows_pi4_encoder(
    model: Option<PiModel>,
    video_names: Seq<Seq<char>>,
    media_models: Seq<Seq<char>>,
) -> bool {
    model == Some(PiModel::Pi4) && (some_name_matches(
        video_names,
        seq!["bcm2835"@, "codec"@, "encode"@],
    ) || some_name_matches(media_models, seq!["bcm2835"@, "codec"@, "encode"@])
        || some_name_matches(video_names, seq!["h264"@, "enc"@]))
}

/// Whether the names of a host show the decoder of a Raspberry Pi 5.
pub open spec fn shows_pi5_decoder(
    hardware_target: HardwareTarget,
    model: Option<PiModel>,
    video_names: Seq<Seq<char>>,
    media_models: Seq<Seq<char>>,
    has_media_nodes: bool,
) -> bool {
    (hardware_target == HardwareTarget::RaspberryPi5 || model == Some(PiModel::Pi5)) && (
    some_name_matches(video_names, seq!["rpivid"@]) || some_name_matches(
        video_names,
        seq!["stateless"@, "decoder"@],
    ) || some_name_matches(media_models, seq!["rpivid"@]) || some_name_matches(
        media_models,
        seq!["pisp"@],
    ) || (model == Some(PiModel::Pi5) && has_media_nodes))
}

/// What a host can do, given what was found of it.
pub open spec fn observed_capabilities(
    hardware_target: HardwareTarget,
    found: HostObservations,
) -> HostCapabilities {
    let model = model_of(found.models@);
    let video_names = all_clean(found.video_names@);
    let media_models = all_clean(found.media_models@);
    HostCapabilities {
        v4l2_available: found.has_video_device || found.has_video_entries,
        libcamera_available: found.has_libcamera_hello || found.has_libcamera_still
            || found.has_libcamera_vid,
        pi_model: model,
        has_pi4_h264_encoder: shows_pi4_encoder(model, video_names, media_models),
        has_pi5_stateless_decoder: shows_pi5_decoder(
            hardware_target,
            model,
            video_names,
            media_models,
            found.has_media_device || found.has_media_entries,
        ),
        ..capability::no_capabilities()
    }
}

/// Whether the names of a host show the encoder of a Raspberry Pi 4.
pub fn detect_pi4_h264_encoder(
    model: Option<PiModel>,
    video_names: &Vec<String>,
    media_models: &Vec<String>,
) -> (r: bool)
    ensures
        r == shows_pi4_encoder(model, texts(video_names@), texts(media_models@)),
{
    match model {
        Some(PiModel::Pi4) => {},
        _ => {
            return false;
        },
    }
    let codec: Vec<&str> = vec!["bcm2835", "codec", "encode"];
    let encoder: Vec<&str> = vec!["h264", "enc"];
    assert(token_texts(codec@) =~= seq!["bcm2835"@, "codec"@, "encode"@]);
    assert(token_texts(encoder@) =~= seq!["h264"@, "enc"@]);
    any_name_matches(video_names, &codec) || any_name_matches(media_models, &codec)
        || any_name_matches(video_names, &encoder)
}

/// Whether the names of a host show the decoder of a Raspberry Pi 5.
pub fn detect_pi5_stateless_decoder(
    hardware_target: HardwareTarget,
    model: Option<PiModel>,
    video_names: &Vec<String>,
    media_models: &Vec<String>,
    has_media_nodes: bool,
) -> (r: bool)
    ensures
        r == shows_pi5_decoder(
            hardware_target,
            model,
            texts(video_names@),
            texts(media_models@),
            has_media_nodes,
        ),
{
    let is_pi5 = match model {
        Some(PiModel::Pi5) => true,
        _ => false,
    };
    if hardware_target != HardwareTarget::RaspberryPi5 && !is_pi5 {
        return false;
    }
    let rpivid: Vec<&str> = vec!["rpivid"];
    let stateless: Vec<&str> = vec!["stateless", "decoder"];
    let pisp: Vec<&str> = vec!["pisp"];
    assert(token_texts(rpivid@) =~= seq!["rpivid"@]);
    assert(token_texts(stateless@) =~= seq!["stateless"@, "decoder"@]);
    assert(token_texts(pisp@) =~= seq!["pisp"@]);
    any_name_matches(video_names, &rpivid) || any_name_matches(video_names, &stateless)
        || any_name_matches(media_models, &rpivid) || any_name_matches(media_models, &pisp) || (
    is_pi5 && has_media_nodes)
}

// ---------------------------------------------------------------------------
// Laws
// ---------------------------------------------------------------------------

/// The hardware encoder is found on no other host than a Raspberry Pi 4.
pub proof fn only_the_pi4_has_the_encoder(hardware_target: HardwareTarget, found: HostObservations)
    ensures
        observed_capabilities(hardware_target, found).has_pi4_h264_encoder
            ==> observed_capabilities(hardware_target, found).pi_model == Some(PiModel::Pi4),
{
}

/// Which model a host is does not depend on what is asked of it; nor does anything else
/// that is found, but for the decoder of a Raspberry Pi 5.
pub proof fn findings_do_not_depend_on_the_target(
    one: HardwareTarget,
    other: HardwareTarget,
    found: HostObservations,
)
    ensures
        (HostCapabilities {
            has_pi5_stateless_decoder: false,
            ..observed_capabilities(one, found)
        }) == (HostCapabilities {
            has_pi5_stateless_decoder: false,
            ..observed_capabilities(other, found)
        }),
{
}

/// A probe of this host looks for an absolute path where it is.
pub proof fn this_host_keeps_its_paths(path: Seq<char>)
    requires
        path.len() > 0,
        path[0] == '/',
        path.len() > 1 ==> path[1] != '/',
    ensures
        below("/"@, path) == path,
{
    reveal_strlit("/");
    reveal_with_fuel(without_leading, 3);
    assert("/"@ =~= seq!['/']);
    assert(seq!['/'] + path.drop_first() =~= path);
}

proof fn lemma_leading_come_off(zeros: Seq<char>, s: Seq<char>, c: char)
    requires
        forall|i: int| 0 <= i < zeros.len() ==> zeros[i] == c,
    ensures
        without_leading(zeros + s, c) == without_leading(s, c),
    decreases zeros.len(),
{
    if zeros.len() == 0 {
        assert(zeros + s == s);
    } else {
        lemma_leading_come_off(zeros.drop_first(), s, c);
        assert((zeros + s).drop_first() == zeros.drop_first() + s);
        assert((zeros + s)[0] == zeros[0]);
    }
}

proof fn lemma_trailing_come_off(s: Seq<char>, zeros: Seq<char>, c: char)
    requires
        forall|i: int| 0 <= i < zeros.len() ==> zeros[i] == c,
    ensures
        without_trailing(s + zeros, c) == without_trailing(s, c),
    decreases zeros.len(),
{
    if zeros.len() == 0 {
        assert(s + zeros == s);
    } else {
        lemma_trailing_come_off(s, zeros.drop_last(), c);
        assert((s + zeros).drop_last() == s + zeros.drop_last());
        assert((s + zeros).last() == zeros.last());
    }
}

/// A file says what is left of it without the zeros and then without the white space at
/// its ends; one of zeros and white space says nothing.
pub proof fn files_say_their_inner_text(
    zeros: Seq<char>,
    front: Seq<char>,
    said: Seq<char>,
    back: Seq<char>,
    more_zeros: Seq<char>,
)
    requires
        forall|i: int| 0 <= i < zeros.len() ==> zeros[i] == '\0',
        forall|i: int| 0 <= i < more_zeros.len() ==> more_zeros[i] == '\0',
        text::all_white(front),
        text::all_white(back),
        said.len() > 0 ==> !text::is_whitespace(said[0]) && !text::is_whitespace(said.last())
            && said[0] != '\0' && said.last() != '\0',
    ensures
        clean(zeros + (front + said + back) + more_zeros) == (if said.len() == 0 {
            None::<Seq<char>>
        } else {
            Some(said)
        }),
{
    let inner = front + said + back;
    assert(zeros + inner + more_zeros == zeros + (inner + more_zeros));
    lemma_leading_come_off(zeros, inner + more_zeros, '\0');
    if inner.len() > 0 {
        let first = inner[0];
        let last = inner.last();
        assert(first != '\0' && last != '\0') by {
            if front.len() > 0 {
                assert(text::is_whitespace(front[0]));
                assert(first == front[0]);
            } else if said.len() > 0 {
                assert(first == said[0]);
            } else {
                assert(text::is_whitespace(back[0]));
                assert(first == back[0]);
            }
            if back.len() > 0 {
                assert(text::is_whitespace(back[back.len() - 1]));
                assert(last == back[back.len() - 1]);
            } else if said.len() > 0 {
                assert(last == said.last());
            } else {
                assert(text::is_whitespace(front[front.len() - 1]));
                assert(last == front[front.len() - 1]);
            }
        }
        assert((inner + more_zeros)[0] == first);
        assert(without_leading(inner + more_zeros, '\0') == inner + more_zeros);
        lemma_trailing_come_off(inner, more_zeros, '\0');
        assert(without_trailing(inner, '\0') == inner);
    } else {
        assert(inner + more_zeros == more_zeros + Seq::<char>::empty());
        lemma_leading_come_off(more_zeros, Seq::empty(), '\0');
        assert(without_leading(inner + more_zeros, '\0') == Seq::<char>::empty());
        assert(inner == Seq::<char>::empty());
    }
    text::trimming_takes_white_space_off(front, said, back);
}

/// A host is the model that its text names, in any case of letters and wherever in the
/// text; one that names both is the newer one.
pub proof fn hosts_are_told_by_their_name(said: Seq<char>)
    ensures
        text::has_substring(text::lower(said), "raspberry pi 5"@) ==> named_model(said) == Some(
            PiModel::Pi5,
        ),
        text::has_substring(text::lower(said), "raspberry pi 4"@) && !text::has_substring(
            text::lower(said),
            "raspberry pi 5"@,
        ) ==> named_model(said) == Some(PiModel::Pi4),
        !text::has_substring(text::lower(said), "raspberry pi 4"@) && !text::has_substring(
            text::lower(said),
            "raspberry pi 5"@,
        ) ==> named_model(said) is None,
{
}

/// The first file that names a model decides; files that say nothing, or name none, are
/// passed over.
pub proof fn the_first_named_model_counts(contents: Seq<String>, at: int)
    requires
        0 <= at < contents.len(),
        forall|i: int|
            0 <= i < at ==> (clean((#[trigger] contents[i])@) matches Some(said) ==> named_model(
                said,
            ) is None),
        clean(contents[at]@) matches Some(said) && named_model(said) is Some,
    ensures
        model_of(contents) == named_model(clean(contents[at]@)->0),
    decreases at,
{
    if at > 0 {
        let rest = contents.drop_first();
        assert(clean(contents[0]@) matches Some(said) ==> named_model(said) is None);
        assert(rest[at - 1] == contents[at]);
        assert forall|i: int| 0 <= i < at - 1 implies (clean((#[trigger] rest[i])@) matches Some(
            said,
        ) ==> named_model(said) is None) by {
            assert(rest[i] == contents[i + 1]);
        }
        the_first_named_model_counts(rest, at - 1);
    }
}

/// A name shows something if it holds all the words for it, in any case of letters; a list
/// of names does if one of its names does, so that further names never hide anything.
pub proof fn one_name_is_enough(
    names: Seq<Seq<char>>,
    name: Seq<char>,
    more: Seq<Seq<char>>,
    tokens: Seq<Seq<char>>,
)
    ensures
        some_name_matches(names + seq![name] + more, tokens) <==> some_name_matches(names, tokens)
            || name_matches(name, tokens) || some_name_matches(more, tokens),
        !some_name_matches(Seq::empty(), tokens),
        name_matches(name, tokens) <==> forall|i: int|
            0 <= i < tokens.len() ==> text::has_substring(
                text::lower(name),
                #[trigger] tokens[i],
            ),
{
    let all = names + seq![name] + more;
    if some_name_matches(names, tokens) {
        let i = choose|i: int| 0 <= i < names.len() && name_matches(#[trigger] names[i], tokens);
        assert(all[i] == names[i]);
    }
    if name_matches(name, tokens) {
        assert(all[names.len() as int] == name);
    }
    if some_name_matches(more, tokens) {
        let i = choose|i: int| 0 <= i < more.len() && name_matches(#[trigger] more[i], tokens);
        assert(all[names.len() + 1 + i] == more[i]);
    }
    if some_name_matches(all, tokens) {
        let i = choose|i: int| 0 <= i < all.len() && name_matches(#[trigger] all[i], tokens);
        if i < names.len() {
            assert(names[i] == all[i]);
        } else if i == names.len() {
            assert(all[i] == name);
        } else {
            assert(more[i - names.len() - 1] == all[i]);
        }
    }
}

/// What a host is found to have: a capture device where one is there or listed, libcamera
/// where any of its programs is there. What only a build can tell is not found here.
pub proof fn hosts_have_what_is_there(hardware_target: HardwareTarget, found: HostObservations)
    ensures
        ({
            let host = observed_capabilities(hardware_target, found);
            &&& host.v4l2_available <==> found.has_video_device || found.has_video_entries
            &&& host.libcamera_available <==> found.has_libcamera_hello
                || found.has_libcamera_still || found.has_libcamera_vid
            &&& host.pi_model == model_of(found.models@)
            &&& !host.ffmpeg_available && !host.rtp_packetization_available
            &&& !host.has_drawtext_filter && !host.has_overlay_filter && !host.has_scale_filter
            &&& !host.has_color_channel_mixer_filter
        }),
{
}

/// A Pi 5 with any media device has its decoder, and any host that is meant to be one, or
/// is one, has it where a device is named for it. No other host has it.
pub proof fn decoders_belong_to_the_pi5(
    hardware_target: HardwareTarget,
    found: HostObservations,
    name: Seq<char>,
)
    ensures
        ({
            let host = observed_capabilities(hardware_target, found);
            let meant = hardware_target == HardwareTarget::RaspberryPi5 || host.pi_model == Some(
                PiModel::Pi5,
            );
            let videos = all_clean(found.video_names@);
            let medias = all_clean(found.media_models@);
            &&& host.has_pi5_stateless_decoder ==> meant
            &&& host.pi_model == Some(PiModel::Pi5) && (found.has_media_device
                || found.has_media_entries) ==> host.has_pi5_stateless_decoder
            &&& meant && videos.contains(name) && text::has_substring(
                text::lower(name),
                "rpivid"@,
            ) ==> host.has_pi5_stateless_decoder
            &&& meant && medias.contains(name) && (text::has_substring(
                text::lower(name),
                "rpivid"@,
            ) || text::has_substring(text::lower(name), "pisp"@))
                ==> host.has_pi5_stateless_decoder
            &&& meant && videos.contains(name) && text::has_substring(
                text::lower(name),
                "stateless"@,
            ) && text::has_substring(text::lower(name), "decoder"@)
                ==> host.has_pi5_stateless_decoder
            &&& host.pi_model == Some(PiModel::Pi4) && (videos.contains(name) || medias.contains(
                name,
            )) && text::has_substring(text::lower(name), "bcm2835"@) && text::has_substring(
                text::lower(name),
                "codec"@,
            ) && text::has_substring(text::lower(name), "encode"@) ==> host.has_pi4_h264_encoder
        }),
{
    let videos = all_clean(found.video_names@);
    let medias = all_clean(found.media_models@);
    let one = seq!["rpivid"@];
    let other = seq!["pisp"@];
    let two = seq!["stateless"@, "decoder"@];
    let three = seq!["bcm2835"@, "codec"@, "encode"@];
    if text::has_substring(text::lower(name), "rpivid"@) {
        assert(name_matches(name, one));
    }
    if text::has_substring(text::lower(name), "pisp"@) {
        assert(name_matches(name, other));
    }
    if text::has_substring(text::lower(name), "stateless"@) && text::has_substring(
        text::lower(name),
        "decoder"@,
    ) {
        assert(name_matches(name, two));
    }
    if text::has_substring(text::lower(name), "bcm2835"@) && text::has_substring(
        text::lower(name),
        "codec"@,
    ) && text::has_substring(text::lower(name), "encode"@) {
        assert(name_matches(name, three));
    }
    if videos.contains(name) {
        assert(videos[videos.index_of(name)] == name);
    }
    if medias.contains(name) {
        assert(medias[medias.index_of(name)] == name);
    }
}

/// A path below a root is the root and the path with one slash between them, whatever
/// slashes the path begins with.
pub proof fn paths_lie_below_their_root(root: Seq<char>, slashes: Seq<char>, path: Seq<char>)
    requires
        forall|i: int| 0 <= i < slashes.len() ==> slashes[i] == '/',
        path.len() > 0 ==> path[0] != '/',
        root.len() > 0,
        root.last() != '/',
    ensures
        below(root, slashes + path) == root + seq!['/'] + path,
        below(root.push('/'), slashes + path) == root + seq!['/'] + path,
{
    lemma_leading_come_off(slashes, path, '/');
    assert(without_leading(path, '/') == path);
    assert(root.push('/') == root + seq!['/']);
}

/// Of a list of files, those count that say something, each as what it says, in their
/// order.
pub proof fn files_are_read_in_order(contents: Seq<String>, file: String)
    ensures
        all_clean(Seq::empty()) == Seq::<Seq<char>>::empty(),
        clean(file@) matches Some(said) ==> all_clean(contents.push(file)) == all_clean(
            contents,
        ).push(said),
        clean(file@) is None ==> all_clean(contents.push(file)) == all_clean(contents),
{
    assert(contents.push(file).drop_last() == contents);
}

/// The model of a host is the one that the first telling file names.
pub proof fn models_are_detected(contents: &Vec<String>, model: Option<PiModel>, said: Seq<char>)
    requires
        call_ensures(detect_pi_model, (contents,), model),
        contents@.len() > 0,
        clean(contents@[0]@) == Some(said),
    ensures
        text::has_substring(text::lower(said), "raspberry pi 5"@) ==> model == Some(PiModel::Pi5),
        text::has_substring(text::lower(said), "raspberry pi 4"@) && !text::has_substring(
            text::lower(said),
            "raspberry pi 5"@,
        ) ==> model == Some(PiModel::Pi4),
{
    hosts_are_told_by_their_name(said);
    if named_model(said) is Some {
        the_first_named_model_counts(contents@, 0);
    }
}

/// Only a Pi 4 has the encoder, and only a host that is a Pi 5, or is meant to be one, the
/// decoder; a Pi 5 with media devices always has it.
pub proof fn hardware_is_detected_on_its_model(
    hardware_target: HardwareTarget,
    model: Option<PiModel>,
    video_names: &Vec<String>,
    media_models: &Vec<String>,
    has_media_nodes: bool,
    encoder: bool,
    decoder: bool,
)
    requires
        call_ensures(detect_pi4_h264_encoder, (model, video_names, media_models), encoder),
        call_ensures(
            detect_pi5_stateless_decoder,
            (hardware_target, model, video_names, media_models, has_media_nodes),
            decoder,
        ),
    ensures
        encoder ==> model == Some(PiModel::Pi4),
        decoder ==> hardware_target == HardwareTarget::RaspberryPi5 || model == Some(PiModel::Pi5),
        model == Some(PiModel::Pi5) && has_media_nodes ==> decoder,
{
}

} // verus!
