//! What a frame-capture run computes before it touches a camera: the
//! exact argument list handed to the capture tool, and the output
//! paths the screenshots are written under.

use vstd::prelude::*;
use vstd::string::StringExecFns;

use crate::util::hex_digit;

verus! {

/// The decimal rendering of a number, most significant digit first.
pub open spec fn dec_digits(n: int) -> Seq<char>
    recommends
        n >= 0,
    decreases n,
{
    if n < 10 {
        seq![hex_digit(n as u8)]
    } else {
        dec_digits(n / 10) + seq![hex_digit((n % 10) as u8)]
    }
}

/// Appends the decimal rendering of `n`.
pub fn push_decimal(out: &mut String, n: usize)
    ensures
        final(out)@ == old(out)@ + dec_digits(n as int),
    decreases n,
{
    if n < 10 {
        crate::util::push_hex_digit(out, n as u8);
    } else {
        push_decimal(out, n / 10);
        crate::util::push_hex_digit(out, (n % 10) as u8);
        proof {
            assert(old(out)@ + dec_digits(n as int / 10) + seq![hex_digit((n % 10) as u8)]
                =~= old(out)@ + dec_digits(n as int));
        }
    }
}

/// The argument list of one frame capture: take one frame from the
/// camera's feed over TCP and write it, at quality two, to `output`.
pub fn capture_args(rtsp_url: &String, output: &String) -> (r: Vec<String>)
    ensures
        r@.len() == 10,
        r@[0]@ == "-y"@,
        r@[1]@ == "-rtsp_transport"@,
        r@[2]@ == "tcp"@,
        r@[3]@ == "-i"@,
        r@[4]@ == rtsp_url@,
        r@[5]@ == "-vframes"@,
        r@[6]@ == "1"@,
        r@[7]@ == "-q:v"@,
        r@[8]@ == "2"@,
        r@[9]@ == output@,
{
    let mut args: Vec<String> = Vec::new();
    args.push(String::from_str("-y"));
    args.push(String::from_str("-rtsp_transport"));
    args.push(String::from_str("tcp"));
    args.push(String::from_str("-i"));
    args.push(rtsp_url.clone());
    args.push(String::from_str("-vframes"));
    args.push(String::from_str("1"));
    args.push(String::from_str("-q:v"));
    args.push(String::from_str("2"));
    args.push(output.clone());
    args
}

/// The output path of the capture numbered `idx`.
pub fn shot_output_path(idx: usize) -> (r: String)
    ensures
        r@ == "img/rtsp_"@ + dec_digits(idx as int) + ".jpg"@,
{
    let mut out = String::from_str("img/rtsp_");
    push_decimal(&mut out, idx);
    let r = out.concat(".jpg");
    proof {
        assert(r@ =~= "img/rtsp_"@ + dec_digits(idx as int) + ".jpg"@);
    }
    r
}

/// The output path of the capture numbered `idx` under timestamp
/// `stamp`.
pub fn shot_output_path_stamped(idx: usize, stamp: &String) -> (r: String)
    ensures
        r@ == "img/rtsp_"@ + dec_digits(idx as int) + "_"@ + stamp@ + ".jpg"@,
{
    let mut out = String::from_str("img/rtsp_");
    push_decimal(&mut out, idx);
    out.append("_");
    out.append(stamp.as_str());
    let r = out.concat(".jpg");
    proof {
        assert(r@ =~= "img/rtsp_"@ + dec_digits(idx as int) + "_"@ + stamp@ + ".jpg"@);
    }
    r
}

} // verus!
