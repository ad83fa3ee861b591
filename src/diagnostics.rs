use vstd::prelude::*;

verus! {

/// Where the diagnostic log goes on an Android device.
pub open spec fn android_log_path() -> Seq<char> {
    "/data/data/com.your.package.name/files/rust_log.txt"@
}

/// Where the diagnostic log goes elsewhere: the working directory.
pub open spec fn desktop_log_path() -> Seq<char> {
    "rust_log.txt"@
}

/// The path of the diagnostic log: the application's private files
/// directory on Android, a file in the working directory elsewhere.
pub fn get_log_path(on_android: bool) -> (r: String)
    ensures
        r@ == (if on_android {
            android_log_path()
        } else {
            desktop_log_path()
        }),
{
    if on_android {
        proof {
            reveal_strlit("/data/data/com.your.package.name/files/rust_log.txt");
        }
        "/data/data/com.your.package.name/files/rust_log.txt".to_owned()
    } else {
        proof {
            reveal_strlit("rust_log.txt");
        }
        "rust_log.txt".to_owned()
    }
}

} // verus!
