//! Building the keyboard DLLs from a `.klc` file with the Microsoft Keyboard
//! Layout Creator's tools: the command lines of each step.

use vstd::prelude::*;

use crate::text::{concat_text, push_text, replace_str, replaced, texts};

verus! {

/// The step that builds a keyboard DLL for each `.klc` file and
/// architecture.
pub struct BuildKlc {}

/// The arguments of `kbdutool.exe` generating a keyboard's C sources from
/// its `.klc` file.
pub open spec fn kbdutool_args_of(klc_path: Seq<char>) -> Seq<Seq<char>> {
    seq!["-n"@, "-s"@, "-u"@, klc_path]
}

impl BuildKlc {
    /// The arguments of `kbdutool.exe` generating a keyboard's C sources from
    /// its `.klc` file.
    pub fn kbdutool_args(klc_path: &str) -> (res: Vec<String>)
        ensures
            texts(res@) == kbdutool_args_of(klc_path@),
    {
        let mut args: Vec<String> = Vec::new();
        push_text(&mut args, "-n".to_string());
        push_text(&mut args, "-s".to_string());
        push_text(&mut args, "-u".to_string());
        push_text(&mut args, klc_path.to_string());
        assert(texts(args@) =~= kbdutool_args_of(klc_path@));
        args
    }

    /// The name of the keyboard that a `.klc` file name gives its sources:
    /// the file name without `.klc`.
    pub fn source_prefix(file_name: &str) -> (res: String)
        ensures
            res@ == replaced(file_name@, ".klc"@, ""@),
    {
        replace_str(file_name, ".klc", "")
    }
}

/// The arguments of `cl.exe` compiling a keyboard's C source: the include path, the definitions and options of a kernel-mode keyboard layout, and `<name>.C`.
pub open spec fn cl_args_of(include_path: Seq<char>, name: Seq<char>) -> Seq<Seq<char>> {
    seq![
        "-nologo"@,
        "-I"@ + include_path,
        "-DNODGICAPMASKS"@,
        "-DNO_WIN_MESSAGES"@,
        "-DNO_WIN_STYLES"@,
        "-DNO_SYSMETRICS"@,
        "-DNOMENUS"@,
        "-DNOCIONS"@,
        "-DNOSYSCOMMANDS"@,
        "-DNORASTEROPS"@,
        "-DNOSHOWWINDOW"@,
        "-DOEMRESOURCE"@,
        "-DONATOM"@,
        "-DNOCURSOR"@,
        "-DNOCOLOR"@,
        "-DNOCTLMGR"@,
        "-DNODRAWTEXT"@,
        "-DNOGDI"@,
        "-DNOKERNEL"@,
        "-DNONLS"@,
        "-DNOMB"@,
        "-DNOMEMMGR"@,
        "-DNOMETAFILE"@,
        "-DNOMINMAX"@,
        "-DNOMSG"@,
        "-DNOOPENFILE"@,
        "-DNOSCROLL"@,
        "-DNOSERVICE"@,
        "-DNOSOUND"@,
        "-DNOTEXTMETRIC"@,
        "-DNOWINOFFSETS"@,
        "-DNOWH"@,
        "-DNOCOMM"@,
        "-DNOKANJI"@,
        "-DJI"@,
        "-DNOHELP"@,
        "-DNOPROFILER"@,
        "-DNODEFERWINDOWPOS"@,
        "-DNOMCX"@,
        "-DWIN32_LEAN_AND_MEAN"@,
        "-Droster"@,
        "-DSTDCALL"@,
        "-D_WIN32_W"@,
        "-DNT=0x0500"@,
        "/DWINVER=0x0500"@,
        "-D_WIN32_IE=0x0500"@,
        "/MD"@,
        "/c"@,
        "/Zp8"@,
        "/Gy"@,
        "/W3"@,
        "/WX"@,
        "/Gz"@,
        "/Gm-"@,
        "/EHs-c-"@,
        "/GR-"@,
        "/GF"@,
        "-Z7"@,
        "/Oxs"@,
        name + ".C"@,
    ]
}

impl BuildKlc {
    /// The arguments of `cl.exe` compiling a keyboard's C source: the include path, the definitions and options of a kernel-mode keyboard layout, and `<name>.C`.
    #[verifier::rlimit(80)]
    pub fn cl_args(include_path: &str, name: &str) -> (res: Vec<String>)
        ensures
            texts(res@) == cl_args_of(include_path@, name@),
    {
        let mut args: Vec<String> = Vec::new();
        push_text(&mut args, "-nologo".to_string());
        push_text(&mut args, concat_text("-I", include_path));
        push_text(&mut args, "-DNODGICAPMASKS".to_string());
        push_text(&mut args, "-DNO_WIN_MESSAGES".to_string());
        push_text(&mut args, "-DNO_WIN_STYLES".to_string());
        push_text(&mut args, "-DNO_SYSMETRICS".to_string());
        push_text(&mut args, "-DNOMENUS".to_string());
        push_text(&mut args, "-DNOCIONS".to_string());
        push_text(&mut args, "-DNOSYSCOMMANDS".to_string());
        push_text(&mut args, "-DNORASTEROPS".to_string());
        push_text(&mut args, "-DNOSHOWWINDOW".to_string());
        push_text(&mut args, "-DOEMRESOURCE".to_string());
        push_text(&mut args, "-DONATOM".to_string());
        push_text(&mut args, "-DNOCURSOR".to_string());
        push_text(&mut args, "-DNOCOLOR".to_string());
        push_text(&mut args, "-DNOCTLMGR".to_string());
        push_text(&mut args, "-DNODRAWTEXT".to_string());
        push_text(&mut args, "-DNOGDI".to_string());
        push_text(&mut args, "-DNOKERNEL".to_string());
        push_text(&mut args, "-DNONLS".to_string());
        push_text(&mut args, "-DNOMB".to_string());
        push_text(&mut args, "-DNOMEMMGR".to_string());
        push_text(&mut args, "-DNOMETAFILE".to_string());
        push_text(&mut args, "-DNOMINMAX".to_string());
        push_text(&mut args, "-DNOMSG".to_string());
        push_text(&mut args, "-DNOOPENFILE".to_string());
        push_text(&mut args, "-DNOSCROLL".to_string());
        push_text(&mut args, "-DNOSERVICE".to_string());
        push_text(&mut args, "-DNOSOUND".to_string());
        push_text(&mut args, "-DNOTEXTMETRIC".to_string());
        push_text(&mut args, "-DNOWINOFFSETS".to_string());
        push_text(&mut args, "-DNOWH".to_string());
        push_text(&mut args, "-DNOCOMM".to_string());
        push_text(&mut args, "-DNOKANJI".to_string());
        push_text(&mut args, "-DJI".to_string());
        push_text(&mut args, "-DNOHELP".to_string());
        push_text(&mut args, "-DNOPROFILER".to_string());
        push_text(&mut args, "-DNODEFERWINDOWPOS".to_string());
        push_text(&mut args, "-DNOMCX".to_string());
        push_text(&mut args, "-DWIN32_LEAN_AND_MEAN".to_string());
        push_text(&mut args, "-Droster".to_string());
        push_text(&mut args, "-DSTDCALL".to_string());
        push_text(&mut args, "-D_WIN32_W".to_string());
        push_text(&mut args, "-DNT=0x0500".to_string());
        push_text(&mut args, "/DWINVER=0x0500".to_string());
        push_text(&mut args, "-D_WIN32_IE=0x0500".to_string());
        push_text(&mut args, "/MD".to_string());
        push_text(&mut args, "/c".to_string());
        push_text(&mut args, "/Zp8".to_string());
        push_text(&mut args, "/Gy".to_string());
        push_text(&mut args, "/W3".to_string());
        push_text(&mut args, "/WX".to_string());
        push_text(&mut args, "/Gz".to_string());
        push_text(&mut args, "/Gm-".to_string());
        push_text(&mut args, "/EHs-c-".to_string());
        push_text(&mut args, "/GR-".to_string());
        push_text(&mut args, "/GF".to_string());
        push_text(&mut args, "-Z7".to_string());
        push_text(&mut args, "/Oxs".to_string());
        push_text(&mut args, concat_text(name, ".C"));
        assert(texts(args@) =~= cl_args_of(include_path@, name@));
        args
    }
}

/// The arguments of `rc.exe` compiling a keyboard's resources `<name>.RC`.
pub open spec fn rc_args_of(include_path: Seq<char>, name: Seq<char>) -> Seq<Seq<char>> {
    seq![
        "-r"@,
        "-I"@ + include_path,
        "-DSTDCALL"@,
        "-DCONDITION_HANDLING=1"@,
        "-DNT_UP=1"@,
        "-DNT_INST=0"@,
        "-DWIN32=100"@,
        "-D_NT1X_=100"@,
        "-DWINNT=1"@,
        "-D_WIN32_WINNT=0x0500"@,
        "/DWINVER=0x0400"@,
        "-D_WIN32_IE=0x0400"@,
        "-DWIN32_LEAN_AND_MEAN=1"@,
        "-DDEVEL=1"@,
        "-DFPO=1"@,
        "-DNDEBUG"@,
        "-l"@,
        "409"@,
        name + ".RC"@,
    ]
}

impl BuildKlc {
    /// The arguments of `rc.exe` compiling a keyboard's resources `<name>.RC`.
    pub fn rc_args(include_path: &str, name: &str) -> (res: Vec<String>)
        ensures
            texts(res@) == rc_args_of(include_path@, name@),
    {
        let mut args: Vec<String> = Vec::new();
        push_text(&mut args, "-r".to_string());
        push_text(&mut args, concat_text("-I", include_path));
        push_text(&mut args, "-DSTDCALL".to_string());
        push_text(&mut args, "-DCONDITION_HANDLING=1".to_string());
        push_text(&mut args, "-DNT_UP=1".to_string());
        push_text(&mut args, "-DNT_INST=0".to_string());
        push_text(&mut args, "-DWIN32=100".to_string());
        push_text(&mut args, "-D_NT1X_=100".to_string());
        push_text(&mut args, "-DWINNT=1".to_string());
        push_text(&mut args, "-D_WIN32_WINNT=0x0500".to_string());
        push_text(&mut args, "/DWINVER=0x0400".to_string());
        push_text(&mut args, "-D_WIN32_IE=0x0400".to_string());
        push_text(&mut args, "-DWIN32_LEAN_AND_MEAN=1".to_string());
        push_text(&mut args, "-DDEVEL=1".to_string());
        push_text(&mut args, "-DFPO=1".to_string());
        push_text(&mut args, "-DNDEBUG".to_string());
        push_text(&mut args, "-l".to_string());
        push_text(&mut args, "409".to_string());
        push_text(&mut args, concat_text(name, ".RC"));
        assert(texts(args@) =~= rc_args_of(include_path@, name@));
        args
    }
}

/// The arguments of `link.exe` linking a keyboard's DLL from `<name>.def`, `<name>.res` and `<name>.obj`.
pub open spec fn link_args_of(name: Seq<char>) -> Seq<Seq<char>> {
    seq![
        "-nologo"@,
        "-SECTION:INIT,D"@,
        "-OPT:REF"@,
        "-OPT:ICF"@,
        "-IGNORE:4039,4078"@,
        "-noentry"@,
        "-dll"@,
        "-subsystem:native,5.0"@,
        "-merge:.rdata=.text"@,
        "-STACK:0x40000,0x1000"@,
        "-osversion:4.0"@,
        "-version:4.0"@,
        "/release"@,
        "-def:"@ + name + ".def"@,
        name + ".res"@,
        name + ".obj"@,
    ]
}

impl BuildKlc {
    /// The arguments of `link.exe` linking a keyboard's DLL from `<name>.def`, `<name>.res` and `<name>.obj`.
    pub fn link_args(name: &str) -> (res: Vec<String>)
        ensures
            texts(res@) == link_args_of(name@),
    {
        let mut args: Vec<String> = Vec::new();
        push_text(&mut args, "-nologo".to_string());
        push_text(&mut args, "-SECTION:INIT,D".to_string());
        push_text(&mut args, "-OPT:REF".to_string());
        push_text(&mut args, "-OPT:ICF".to_string());
        push_text(&mut args, "-IGNORE:4039,4078".to_string());
        push_text(&mut args, "-noentry".to_string());
        push_text(&mut args, "-dll".to_string());
        push_text(&mut args, "-subsystem:native,5.0".to_string());
        push_text(&mut args, "-merge:.rdata=.text".to_string());
        push_text(&mut args, "-STACK:0x40000,0x1000".to_string());
        push_text(&mut args, "-osversion:4.0".to_string());
        push_text(&mut args, "-version:4.0".to_string());
        push_text(&mut args, "/release".to_string());
        push_text(&mut args, concat_text(concat_text("-def:", name).as_str(), ".def"));
        push_text(&mut args, concat_text(name, ".res"));
        push_text(&mut args, concat_text(name, ".obj"));
        assert(texts(args@) =~= link_args_of(name@));
        args
    }
}

} // verus!
