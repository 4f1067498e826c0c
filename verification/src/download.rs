//! Fetching a video and re-encoding it is the work of other programs. What
//! is settled here is the name of the file that they work on and the
//! arguments that they are called with.

use rand::distr::Alphanumeric;
use rand::{rng, Rng};
use vstd::prelude::*;
use vstd::string::StringExecFns;

verus! {

/// The program that fetches a video.
pub const DOWNLOADER: &'static str = "yt-dlp";

/// The program that re-encodes it.
pub const ENCODER: &'static str = "ffmpeg";

/// The file that the encoder writes, before it takes the place of the
/// video.
pub const EXTRACTED: &'static str = "extracted.webm";

/// How the name of a video ends.
pub const MP4: &'static str = ".mp4";

/// How many characters stand before that ending.
pub const STEM: usize = 10;

/// A letter of the English alphabet or a digit, as a byte.
pub open spec fn is_alphanumeric(byte: u8) -> bool {
    ||| 0x30 <= byte <= 0x39
    ||| 0x41 <= byte <= 0x5a
    ||| 0x61 <= byte <= 0x7a
}

/// The name of a video: letters and digits, as many as a stem has, and the
/// ending.
pub open spec fn is_video_name(name: Seq<char>) -> bool {
    &&& name.len() == STEM + MP4@.len()
    &&& forall|i: int|
        0 <= i < STEM ==> (#[trigger] name[i]) as u32 <= 0xff && is_alphanumeric(name[i] as u8)
    &&& name.subrange(STEM as int, name.len() as int) == MP4@
}

/// `Rng::sample` of rand, with the distribution `Alphanumeric`, on the
/// generator of the thread that `rng` hands out. The crate documents the
/// sample as a byte out of a-z, A-Z and 0-9; which of them comes is left to
/// chance, and the contract says no more than that.
#[verifier::external_body]
fn sample_alphanumeric() -> (byte: u8)
    ensures
        is_alphanumeric(byte),
{
    rng().sample(Alphanumeric)
}

/// `String::push` of the standard library: the text with the character at
/// its end.
#[verifier::external_body]
fn push_char(out: &mut String, c: char)
    ensures
        final(out)@ == old(out)@.push(c),
{
    out.push(c)
}

/// The characters that the bytes of a stem stand for.
pub open spec fn letters(stem: Seq<u8>) -> Seq<char> {
    stem.map_values(|byte: u8| byte as char)
}

/// As many letters and digits as a stem has.
pub open spec fn is_stem(stem: Seq<u8>) -> bool {
    &&& stem.len() == STEM
    &&& forall|i: int| 0 <= i < stem.len() ==> is_alphanumeric(#[trigger] stem[i])
}

/// The name of the video with a given stem: the characters of the stem,
/// and the ending.
pub fn video_name(stem: &Vec<u8>) -> (name: String)
    ensures
        name@ == letters(stem@) + MP4@,
        is_stem(stem@) ==> is_video_name(name@),
{
    let mut name = String::new();
    let mut i: usize = 0;
    while i < stem.len()
        invariant
            i <= stem@.len(),
            name@ == letters(stem@).take(i as int),
        decreases stem@.len() - i,
    {
        push_char(&mut name, stem[i] as char);
        assert(letters(stem@).take(i + 1) =~= letters(stem@).take(i as int).push(
            stem@[i as int] as char,
        ));
        i += 1;
    }
    assert(letters(stem@).take(i as int) =~= letters(stem@));
    name.append(MP4);
    proof {
        if is_stem(stem@) {
            assert(name@.subrange(STEM as int, name@.len() as int) =~= MP4@);
            assert forall|k: int| 0 <= k < STEM implies (#[trigger] name@[k]) as u32 <= 0xff
                && is_alphanumeric(name@[k] as u8) by {
                assert(name@[k] == stem@[k] as char);
            }
        }
    }
    name
}

/// A name for a video that is about to be fetched, with a stem made up at
/// random.
pub fn random_filename() -> (name: String)
    ensures
        is_video_name(name@),
{
    let mut stem: Vec<u8> = Vec::new();
    let mut i: usize = 0;
    while i < STEM
        invariant
            i <= STEM,
            stem@.len() == i,
            forall|k: int| 0 <= k < i ==> is_alphanumeric(#[trigger] stem@[k]),
        decreases STEM - i,
    {
        stem.push(sample_alphanumeric());
        i += 1;
    }
    video_name(&stem)
}

/// The texts of `words`, in their order.
pub open spec fn texts(words: Seq<String>) -> Seq<Seq<char>> {
    words.map_values(|word: String| word@)
}

/// Puts a word at the end of a list of arguments.
fn push_word(arguments: &mut Vec<String>, word: &str)
    ensures
        texts(final(arguments)@) == texts(old(arguments)@).push(word@),
{
    arguments.push(String::from_str(word));
    assert(texts(arguments@) =~= texts(old(arguments)@).push(word@));
}

/// What the downloader is told: to fetch what `url` points to into the
/// file `filename`.
pub open spec fn download_command(filename: Seq<char>, url: Seq<char>) -> Seq<Seq<char>> {
    seq!["-o"@, filename, url]
}

/// What the encoder is told to turn the file `filename` into a video
/// without sound that the platform takes.
pub open spec fn encode_command(filename: Seq<char>) -> Seq<Seq<char>> {
    seq![
        "-i"@,
        filename,
        "-c:v"@,
        "libvpx"@,
        "-deadline"@,
        "good"@,
        "-cpu-used"@,
        "4"@,
        "-crf"@,
        "32"@,
        "-threads"@,
        "2"@,
        "-an"@,
        EXTRACTED@,
    ]
}

/// What the encoder is told to take the sound off the file `filename`
/// and leave the pictures as they are.
pub open spec fn mute_command(filename: Seq<char>) -> Seq<Seq<char>> {
    seq!["-i"@, filename, "-c"@, "copy"@, "-an"@, EXTRACTED@]
}

/// The arguments of the downloader.
pub fn download_arguments(filename: &str, url: &str) -> (arguments: Vec<String>)
    ensures
        texts(arguments@) == download_command(filename@, url@),
{
    let mut arguments: Vec<String> = Vec::new();
    assert(texts(arguments@) =~= Seq::<Seq<char>>::empty());
    push_word(&mut arguments, "-o");
    push_word(&mut arguments, filename);
    push_word(&mut arguments, url);
    assert(texts(arguments@) =~= download_command(filename@, url@));
    arguments
}

/// The arguments of the encoder for a video that was fetched.
pub fn encode_arguments(filename: &str) -> (arguments: Vec<String>)
    ensures
        texts(arguments@) == encode_command(filename@),
{
    let mut arguments: Vec<String> = Vec::new();
    assert(texts(arguments@) =~= Seq::<Seq<char>>::empty());
    push_word(&mut arguments, "-i");
    push_word(&mut arguments, filename);
    push_word(&mut arguments, "-c:v");
    push_word(&mut arguments, "libvpx");
    push_word(&mut arguments, "-deadline");
    push_word(&mut arguments, "good");
    push_word(&mut arguments, "-cpu-used");
    push_word(&mut arguments, "4");
    push_word(&mut arguments, "-crf");
    push_word(&mut arguments, "32");
    push_word(&mut arguments, "-threads");
    push_word(&mut arguments, "2");
    push_word(&mut arguments, "-an");
    push_word(&mut arguments, EXTRACTED);
    assert(texts(arguments@) =~= encode_command(filename@));
    arguments
}

/// The arguments of the encoder for taking the sound off a video.
pub fn mute_arguments(filename: &str) -> (arguments: Vec<String>)
    ensures
        texts(arguments@) == mute_command(filename@),
{
    let mut arguments: Vec<String> = Vec::new();
    assert(texts(arguments@) =~= Seq::<Seq<char>>::empty());
    push_word(&mut arguments, "-i");
    push_word(&mut arguments, filename);
    push_word(&mut arguments, "-c");
    push_word(&mut arguments, "copy");
    push_word(&mut arguments, "-an");
    push_word(&mut arguments, EXTRACTED);
    assert(texts(arguments@) =~= mute_command(filename@));
    arguments
}

} // verus!
