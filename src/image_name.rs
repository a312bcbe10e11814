use vstd::prelude::*;

verus! {

/// The character of a decimal digit.
pub open spec fn digit_char(d: nat) -> char {
    if d == 0 { '0' }
    else if d == 1 { '1' }
    else if d == 2 { '2' }
    else if d == 3 { '3' }
    else if d == 4 { '4' }
    else if d == 5 { '5' }
    else if d == 6 { '6' }
    else if d == 7 { '7' }
    else if d == 8 { '8' }
    else { '9' }
}

/// The decimal digits of `n`, most significant first, without leading zeros.
pub open spec fn decimal(n: nat) -> Seq<char>
    decreases n,
{
    if n < 10 {
        seq![digit_char(n)]
    } else {
        decimal(n / 10).push(digit_char(n % 10))
    }
}

/// `i` written in decimal, with a leading '-' when negative.
pub open spec fn signed_decimal(i: int) -> Seq<char> {
    if i < 0 {
        seq!['-'] + decimal((-i) as nat)
    } else {
        decimal(i as nat)
    }
}

/// The name under which an image is stored: the upload time in milliseconds,
/// then the owning record's identifier, a dot and the extension.
pub open spec fn stored_name(millis: nat, id: int, ext: Seq<char>) -> Seq<char> {
    decimal(millis) + signed_decimal(id) + seq!['.'] + ext
}

/// What `Path::extension` gives for a file name, as text.
pub uninterp spec fn extension_of(name: Seq<char>) -> Option<Seq<char>>;

/// The file name assumed for an upload that carries none.
pub open spec fn default_upload_name() -> Seq<char> {
    "default.png"@
}

/// The extension used when the upload's name has none.
pub open spec fn default_extension() -> Seq<char> {
    "png"@
}

/// The extension chosen for an upload with the given file name.
pub open spec fn chosen_extension(upload_name: Option<Seq<char>>) -> Seq<char> {
    let name = match upload_name {
        Some(n) => n,
        None => default_upload_name(),
    };
    match extension_of(name) {
        Some(e) => e,
        None => default_extension(),
    }
}

/// Relies on std::path::Path::extension for the part of a file name after its
/// last dot, read back as text.
#[verifier::external_body]
fn path_extension(name: &str) -> (r: Option<String>)
    ensures
        match r {
            Some(e) => extension_of(name@) == Some(e@),
            None => extension_of(name@) is None,
        },
{
    match std::path::Path::new(name).extension() {
        Some(e) => e.to_str().map(String::from),
        None => None,
    }
}

fn digit_str(d: u8) -> (r: &'static str)
    requires
        d < 10,
    ensures
        r@ == seq![digit_char(d as nat)],
{
    if d == 0 {
        proof { reveal_strlit("0"); }
        "0"
    } else if d == 1 {
        proof { reveal_strlit("1"); }
        "1"
    } else if d == 2 {
        proof { reveal_strlit("2"); }
        "2"
    } else if d == 3 {
        proof { reveal_strlit("3"); }
        "3"
    } else if d == 4 {
        proof { reveal_strlit("4"); }
        "4"
    } else if d == 5 {
        proof { reveal_strlit("5"); }
        "5"
    } else if d == 6 {
        proof { reveal_strlit("6"); }
        "6"
    } else if d == 7 {
        proof { reveal_strlit("7"); }
        "7"
    } else if d == 8 {
        proof { reveal_strlit("8"); }
        "8"
    } else {
        proof { reveal_strlit("9"); }
        "9"
    }
}

/// Appends the decimal digits of `n` to `s`.
pub fn push_decimal(s: &mut String, n: u128)
    ensures
        final(s)@ == old(s)@ + decimal(n as nat),
    decreases n,
{
    if n >= 10 {
        push_decimal(s, n / 10);
    }
    s.append(digit_str((n % 10) as u8));
    proof {
        assert(old(s)@ + decimal(n as nat) =~= s@);
    }
}

/// Appends `i` in decimal to `s`, with a leading '-' when negative.
pub fn push_signed_decimal(s: &mut String, i: i32)
    ensures
        final(s)@ == old(s)@ + signed_decimal(i as int),
{
    if i < 0 {
        proof { reveal_strlit("-"); }
        s.append("-");
        let magnitude: u128 = (0 - (i as i128)) as u128;
        push_decimal(s, magnitude);
        proof {
            assert(old(s)@ + signed_decimal(i as int) =~= s@);
        }
    } else {
        push_decimal(s, i as u128);
    }
}

/// The stored name for an image uploaded at `millis` for record `id`, with
/// extension `ext`.
pub fn stored_file_name(millis: u128, id: i32, ext: &str) -> (r: String)
    ensures
        r@ == stored_name(millis as nat, id as int, ext@),
{
    let mut s = String::new();
    push_decimal(&mut s, millis);
    push_signed_decimal(&mut s, id);
    proof { reveal_strlit("."); }
    s.append(".");
    s.append(ext);
    proof {
        assert(s@ =~= stored_name(millis as nat, id as int, ext@));
    }
    s
}

/// The extension of an upload's file name, or the default one where the name
/// has none; an upload without a name counts as "default.png".
pub fn upload_extension(upload_name: Option<&str>) -> (r: String)
    ensures
        r@ == chosen_extension(
            match upload_name {
                Some(n) => Some(n@),
                None => None,
            },
        ),
{
    let name = match upload_name {
        Some(n) => n,
        None => "default.png",
    };
    match path_extension(name) {
        Some(e) => e,
        None => String::from_str("png"),
    }
}

/// The stored name for an image uploaded at `millis` for record `id` under the
/// file name `upload_name`.
pub fn image_file_name(millis: u128, id: i32, upload_name: Option<&str>) -> (r: String)
    ensures
        r@ == stored_name(
            millis as nat,
            id as int,
            chosen_extension(
                match upload_name {
                    Some(n) => Some(n@),
                    None => None,
                },
            ),
        ),
{
    let ext = upload_extension(upload_name);
    stored_file_name(millis, id, ext.as_str())
}

} // verus!
