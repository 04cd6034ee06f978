//! The arguments for the programs that encode and decode video.

use crate::server::watch;
use crate::server::watch::get_video_path;
use crate::text;
use vstd::prelude::*;

verus! {

/// The arguments with which the desktop is captured: 30 pictures a second,
/// encoded with H.264 and as little delay as possible.
pub open spec fn capture_arguments() -> Seq<Seq<char>> {
    seq![
        "-f"@,
        "gdigrab"@,
        "-framerate"@,
        "30"@,
        "-draw_mouse"@,
        "0"@,
        "-i"@,
        "desktop"@,
        "-vcodec"@,
        "libx264"@,
        "-preset"@,
        "ultrafast"@,
        "-tune"@,
        "zerolatency"@,
        "-g"@,
        "60"@,
        "-x264opts"@,
        "no-scenecut"@,
        "-sc_threshold"@,
        "0"@,
        "-f"@,
        "h264"@,
        "-"@,
    ]
}

/// The arguments with which the desktop is captured: 30 pictures a second,
/// encoded with H.264 and as little delay as possible.
pub fn start_ffmpeg_capture() -> (arguments: Vec<String>)
    ensures
        text::texts(arguments@) == capture_arguments(),
{
    let mut arguments: Vec<String> = Vec::new();
    arguments.push("-f".to_owned());
    arguments.push("gdigrab".to_owned());
    arguments.push("-framerate".to_owned());
    arguments.push("30".to_owned());
    arguments.push("-draw_mouse".to_owned());
    arguments.push("0".to_owned());
    arguments.push("-i".to_owned());
    arguments.push("desktop".to_owned());
    arguments.push("-vcodec".to_owned());
    arguments.push("libx264".to_owned());
    arguments.push("-preset".to_owned());
    arguments.push("ultrafast".to_owned());
    arguments.push("-tune".to_owned());
    arguments.push("zerolatency".to_owned());
    arguments.push("-g".to_owned());
    arguments.push("60".to_owned());
    arguments.push("-x264opts".to_owned());
    arguments.push("no-scenecut".to_owned());
    arguments.push("-sc_threshold".to_owned());
    arguments.push("0".to_owned());
    arguments.push("-f".to_owned());
    arguments.push("h264".to_owned());
    arguments.push("-".to_owned());
    assert(text::texts(arguments@) =~= capture_arguments());
    arguments
}

/// The arguments with which a video is decoded: H.264 in, pictures of four bytes
/// a pixel out.
pub open spec fn decode_arguments() -> Seq<Seq<char>> {
    seq![
        "-flags"@,
        "low_delay"@,
        "-fflags"@,
        "discardcorrupt"@,
        "-f"@,
        "h264"@,
        "-i"@,
        "-"@,
        "-f"@,
        "rawvideo"@,
        "-pix_fmt"@,
        "rgba"@,
        "-"@,
    ]
}

/// The arguments with which a video is decoded: H.264 in, pictures of four bytes
/// a pixel out.
pub fn start_ffmpeg() -> (arguments: Vec<String>)
    ensures
        text::texts(arguments@) == decode_arguments(),
{
    let mut arguments: Vec<String> = Vec::new();
    arguments.push("-flags".to_owned());
    arguments.push("low_delay".to_owned());
    arguments.push("-fflags".to_owned());
    arguments.push("discardcorrupt".to_owned());
    arguments.push("-f".to_owned());
    arguments.push("h264".to_owned());
    arguments.push("-i".to_owned());
    arguments.push("-".to_owned());
    arguments.push("-f".to_owned());
    arguments.push("rawvideo".to_owned());
    arguments.push("-pix_fmt".to_owned());
    arguments.push("rgba".to_owned());
    arguments.push("-".to_owned());
    assert(text::texts(arguments@) =~= decode_arguments());
    arguments
}

/// The arguments with which the length of a video in seconds is asked for.
pub open spec fn probe_arguments(filename: Seq<char>) -> Seq<Seq<char>> {
    seq![
        "-v"@,
        "error"@,
        "-select_streams"@,
        "v:0"@,
        "-show_entries"@,
        "format=duration"@,
        "-of"@,
        "default=noprint_wrappers=1:nokey=1"@,
        watch::video_path(filename),
    ]
}

/// The arguments with which the length of a video in seconds is asked for.
pub fn start_ffprobe(filename: &str) -> (arguments: Vec<String>)
    ensures
        text::texts(arguments@) == probe_arguments(filename@),
{
    let mut arguments: Vec<String> = Vec::new();
    arguments.push("-v".to_owned());
    arguments.push("error".to_owned());
    arguments.push("-select_streams".to_owned());
    arguments.push("v:0".to_owned());
    arguments.push("-show_entries".to_owned());
    arguments.push("format=duration".to_owned());
    arguments.push("-of".to_owned());
    arguments.push("default=noprint_wrappers=1:nokey=1".to_owned());
    arguments.push(get_video_path(filename));
    assert(text::texts(arguments@) =~= probe_arguments(filename@));
    arguments
}

/// The length of a video is asked for in seconds, of the file with its name,
/// which stands last, and without any words around the number.
pub proof fn law_asking_for_the_length(filename: Seq<char>)
    ensures
        ({
            let arguments = probe_arguments(filename);
            &&& arguments.len() == 9
            &&& arguments[0] == "-v"@ && arguments[1] == "error"@
            &&& arguments[2] == "-select_streams"@ && arguments[3] == "v:0"@
            &&& arguments[4] == "-show_entries"@ && arguments[5] == "format=duration"@
            &&& arguments[6] == "-of"@ && arguments[7] == "default=noprint_wrappers=1:nokey=1"@
            &&& arguments[8] == "recordings/"@ + filename + ".mp4"@
        }),
{
}

/// The desktop comes in at 30 pictures a second, without the mouse, and goes out
/// as H.264 to the standard output; a full picture comes every 60.
pub proof fn law_capturing_the_desktop()
    ensures
        ({
            let arguments = capture_arguments();
            &&& arguments.len() == 23
            &&& arguments[0] == "-f"@ && arguments[1] == "gdigrab"@
            &&& arguments[2] == "-framerate"@ && arguments[3] == "30"@
            &&& arguments[4] == "-draw_mouse"@ && arguments[5] == "0"@
            &&& arguments[6] == "-i"@ && arguments[7] == "desktop"@
            &&& arguments[8] == "-vcodec"@ && arguments[9] == "libx264"@
            &&& arguments[10] == "-preset"@ && arguments[11] == "ultrafast"@
            &&& arguments[12] == "-tune"@ && arguments[13] == "zerolatency"@
            &&& arguments[14] == "-g"@ && arguments[15] == "60"@
            &&& arguments[16] == "-x264opts"@ && arguments[17] == "no-scenecut"@
            &&& arguments[18] == "-sc_threshold"@ && arguments[19] == "0"@
            &&& arguments[20] == "-f"@ && arguments[21] == "h264"@
            &&& arguments[22] == "-"@
        }),
{
}

/// A video comes in as H.264 from the standard input and goes out to the
/// standard output as pictures of four bytes a pixel.
pub proof fn law_decoding_a_video()
    ensures
        ({
            let arguments = decode_arguments();
            &&& arguments.len() == 13
            &&& arguments[0] == "-flags"@ && arguments[1] == "low_delay"@
            &&& arguments[2] == "-fflags"@ && arguments[3] == "discardcorrupt"@
            &&& arguments[4] == "-f"@ && arguments[5] == "h264"@
            &&& arguments[6] == "-i"@ && arguments[7] == "-"@
            &&& arguments[8] == "-f"@ && arguments[9] == "rawvideo"@
            &&& arguments[10] == "-pix_fmt"@ && arguments[11] == "rgba"@
            &&& arguments[12] == "-"@
        }),
{
}

} // verus!
