use vstd::prelude::*;

verus! {

/// The virtual-key code that a key name stands for, if the name is known.
/// Names are lower case; the codes are those of the Windows virtual-key set.
pub open spec fn named_key(name: Seq<char>) -> Option<i32> {
    if name == "ctrl"@ {
        Some(0x11)
    } else if name == "lctrl"@ {
        Some(0xa2)
    } else if name == "rctrl"@ {
        Some(0xa3)
    } else if name == "shift"@ {
        Some(0x10)
    } else if name == "lshift"@ {
        Some(0xa0)
    } else if name == "rshift"@ {
        Some(0xa1)
    } else if name == "alt"@ {
        Some(0x12)
    } else if name == "lalt"@ {
        Some(0xa4)
    } else if name == "ralt"@ {
        Some(0xa5)
    } else if name == "a"@ {
        Some(0x41)
    } else if name == "b"@ {
        Some(0x42)
    } else if name == "c"@ {
        Some(0x43)
    } else if name == "d"@ {
        Some(0x44)
    } else if name == "e"@ {
        Some(0x45)
    } else if name == "f"@ {
        Some(0x46)
    } else if name == "g"@ {
        Some(0x47)
    } else if name == "h"@ {
        Some(0x48)
    } else if name == "i"@ {
        Some(0x49)
    } else if name == "j"@ {
        Some(0x4a)
    } else if name == "k"@ {
        Some(0x4b)
    } else if name == "l"@ {
        Some(0x4c)
    } else if name == "m"@ {
        Some(0x4d)
    } else if name == "n"@ {
        Some(0x4e)
    } else if name == "o"@ {
        Some(0x4f)
    } else if name == "p"@ {
        Some(0x50)
    } else if name == "q"@ {
        Some(0x51)
    } else if name == "r"@ {
        Some(0x52)
    } else if name == "s"@ {
        Some(0x53)
    } else if name == "t"@ {
        Some(0x54)
    } else if name == "u"@ {
        Some(0x55)
    } else if name == "v"@ {
        Some(0x56)
    } else if name == "w"@ {
        Some(0x57)
    } else if name == "x"@ {
        Some(0x58)
    } else if name == "y"@ {
        Some(0x59)
    } else if name == "z"@ {
        Some(0x5a)
    } else if name == "0"@ {
        Some(0x30)
    } else if name == "1"@ {
        Some(0x31)
    } else if name == "2"@ {
        Some(0x32)
    } else if name == "3"@ {
        Some(0x33)
    } else if name == "4"@ {
        Some(0x34)
    } else if name == "5"@ {
        Some(0x35)
    } else if name == "6"@ {
        Some(0x36)
    } else if name == "7"@ {
        Some(0x37)
    } else if name == "8"@ {
        Some(0x38)
    } else if name == "9"@ {
        Some(0x39)
    } else if name == "f1"@ {
        Some(0x70)
    } else if name == "f2"@ {
        Some(0x71)
    } else if name == "f3"@ {
        Some(0x72)
    } else if name == "f4"@ {
        Some(0x73)
    } else if name == "f5"@ {
        Some(0x74)
    } else if name == "f6"@ {
        Some(0x75)
    } else if name == "f7"@ {
        Some(0x76)
    } else if name == "f8"@ {
        Some(0x77)
    } else if name == "f9"@ {
        Some(0x78)
    } else if name == "f10"@ {
        Some(0x79)
    } else if name == "f11"@ {
        Some(0x7a)
    } else if name == "f12"@ {
        Some(0x7b)
    } else if name == "num0"@ {
        Some(0x60)
    } else if name == "num1"@ {
        Some(0x61)
    } else if name == "num2"@ {
        Some(0x62)
    } else if name == "num3"@ {
        Some(0x63)
    } else if name == "num4"@ {
        Some(0x64)
    } else if name == "num5"@ {
        Some(0x65)
    } else if name == "num6"@ {
        Some(0x66)
    } else if name == "num7"@ {
        Some(0x67)
    } else if name == "num8"@ {
        Some(0x68)
    } else if name == "num9"@ {
        Some(0x69)
    } else if name == "numlock"@ {
        Some(0x90)
    } else if name == "numslash"@ {
        Some(0x6f)
    } else if name == "nummultiply"@ {
        Some(0x6a)
    } else if name == "numminus"@ {
        Some(0x6d)
    } else if name == "numplus"@ {
        Some(0x6b)
    } else if name == "numenter"@ {
        Some(0x0d)
    } else if name == "numdecimal"@ {
        Some(0x6e)
    } else if name == "back"@ {
        Some(0x08)
    } else if name == "tab"@ {
        Some(0x09)
    } else if name == "enter"@ {
        Some(0x0d)
    } else if name == "space"@ {
        Some(0x20)
    } else if name == "capslock"@ {
        Some(0x14)
    } else if name == "esc"@ {
        Some(0x1b)
    } else if name == "left"@ {
        Some(0x25)
    } else if name == "right"@ {
        Some(0x27)
    } else if name == "up"@ {
        Some(0x26)
    } else if name == "down"@ {
        Some(0x28)
    } else if name == "home"@ {
        Some(0x24)
    } else if name == "end"@ {
        Some(0x23)
    } else if name == "pageup"@ {
        Some(0x21)
    } else if name == "pagedown"@ {
        Some(0x22)
    } else if name == "insert"@ {
        Some(0x2d)
    } else if name == "delete"@ {
        Some(0x2e)
    } else if name == "printscreen"@ {
        Some(0x2c)
    } else if name == "scrolllock"@ {
        Some(0x91)
    } else if name == "pause"@ {
        Some(0x13)
    } else if name == "break"@ {
        Some(0x03)
    } else if name == "menu"@ {
        Some(0x12)
    } else if name == "lmenu"@ {
        Some(0xa4)
    } else if name == "rmenu"@ {
        Some(0xa5)
    } else if name == "lwin"@ {
        Some(0x5b)
    } else if name == "rwin"@ {
        Some(0x5c)
    } else if name == "apps"@ {
        Some(0x5d)
    } else if name == "sleep"@ {
        Some(0x5f)
    } else if name == "zoom"@ {
        Some(0xfb)
    } else if name == "volumeup"@ {
        Some(0xaf)
    } else if name == "volumedown"@ {
        Some(0xae)
    } else if name == "volumemute"@ {
        Some(0xad)
    } else if name == "stop"@ {
        Some(0xb2)
    } else if name == "playpause"@ {
        Some(0xb3)
    } else if name == "prev"@ {
        Some(0xb1)
    } else if name == "next"@ {
        Some(0xb0)
    } else {
        None
    }
}

/// Whether two strings hold the same characters.
pub fn same_text(a: &str, b: &str) -> (r: bool)
    ensures
        r == (a@ == b@),
{
    let n = a.unicode_len();
    if n != b.unicode_len() {
        return false;
    }
    let mut i: usize = 0;
    while i < n
        invariant
            n == a@.len(),
            n == b@.len(),
            i <= n,
            forall|j: int| 0 <= j < i ==> a@[j] == b@[j],
        decreases n - i,
    {
        if a.get_char(i) != b.get_char(i) {
            return false;
        }
        i = i + 1;
    }
    assert(a@ =~= b@);
    true
}

/// Looks a lower-case key name up in the table of known keys.
#[verifier::rlimit(50)]
pub fn key_code(name: &str) -> (r: Option<i32>)
    ensures
        r == named_key(name@),
{
    if same_text(name, "ctrl") {
        return Some(0x11);
    }
    if same_text(name, "lctrl") {
        return Some(0xa2);
    }
    if same_text(name, "rctrl") {
        return Some(0xa3);
    }
    if same_text(name, "shift") {
        return Some(0x10);
    }
    if same_text(name, "lshift") {
        return Some(0xa0);
    }
    if same_text(name, "rshift") {
        return Some(0xa1);
    }
    if same_text(name, "alt") {
        return Some(0x12);
    }
    if same_text(name, "lalt") {
        return Some(0xa4);
    }
    if same_text(name, "ralt") {
        return Some(0xa5);
    }
    if same_text(name, "a") {
        return Some(0x41);
    }
    if same_text(name, "b") {
        return Some(0x42);
    }
    if same_text(name, "c") {
        return Some(0x43);
    }
    if same_text(name, "d") {
        return Some(0x44);
    }
    if same_text(name, "e") {
        return Some(0x45);
    }
    if same_text(name, "f") {
        return Some(0x46);
    }
    if same_text(name, "g") {
        return Some(0x47);
    }
    if same_text(name, "h") {
        return Some(0x48);
    }
    if same_text(name, "i") {
        return Some(0x49);
    }
    if same_text(name, "j") {
        return Some(0x4a);
    }
    if same_text(name, "k") {
        return Some(0x4b);
    }
    if same_text(name, "l") {
        return Some(0x4c);
    }
    if same_text(name, "m") {
        return Some(0x4d);
    }
    if same_text(name, "n") {
        return Some(0x4e);
    }
    if same_text(name, "o") {
        return Some(0x4f);
    }
    if same_text(name, "p") {
        return Some(0x50);
    }
    if same_text(name, "q") {
        return Some(0x51);
    }
    if same_text(name, "r") {
        return Some(0x52);
    }
    if same_text(name, "s") {
        return Some(0x53);
    }
    if same_text(name, "t") {
        return Some(0x54);
    }
    if same_text(name, "u") {
        return Some(0x55);
    }
    if same_text(name, "v") {
        return Some(0x56);
    }
    if same_text(name, "w") {
        return Some(0x57);
    }
    if same_text(name, "x") {
        return Some(0x58);
    }
    if same_text(name, "y") {
        return Some(0x59);
    }
    if same_text(name, "z") {
        return Some(0x5a);
    }
    if same_text(name, "0") {
        return Some(0x30);
    }
    if same_text(name, "1") {
        return Some(0x31);
    }
    if same_text(name, "2") {
        return Some(0x32);
    }
    if same_text(name, "3") {
        return Some(0x33);
    }
    if same_text(name, "4") {
        return Some(0x34);
    }
    if same_text(name, "5") {
        return Some(0x35);
    }
    if same_text(name, "6") {
        return Some(0x36);
    }
    if same_text(name, "7") {
        return Some(0x37);
    }
    if same_text(name, "8") {
        return Some(0x38);
    }
    if same_text(name, "9") {
        return Some(0x39);
    }
    if same_text(name, "f1") {
        return Some(0x70);
    }
    if same_text(name, "f2") {
        return Some(0x71);
    }
    if same_text(name, "f3") {
        return Some(0x72);
    }
    if same_text(name, "f4") {
        return Some(0x73);
    }
    if same_text(name, "f5") {
        return Some(0x74);
    }
    if same_text(name, "f6") {
        return Some(0x75);
    }
    if same_text(name, "f7") {
        return Some(0x76);
    }
    if same_text(name, "f8") {
        return Some(0x77);
    }
    if same_text(name, "f9") {
        return Some(0x78);
    }
    if same_text(name, "f10") {
        return Some(0x79);
    }
    if same_text(name, "f11") {
        return Some(0x7a);
    }
    if same_text(name, "f12") {
        return Some(0x7b);
    }
    if same_text(name, "num0") {
        return Some(0x60);
    }
    if same_text(name, "num1") {
        return Some(0x61);
    }
    if same_text(name, "num2") {
        return Some(0x62);
    }
    if same_text(name, "num3") {
        return Some(0x63);
    }
    if same_text(name, "num4") {
        return Some(0x64);
    }
    if same_text(name, "num5") {
        return Some(0x65);
    }
    if same_text(name, "num6") {
        return Some(0x66);
    }
    if same_text(name, "num7") {
        return Some(0x67);
    }
    if same_text(name, "num8") {
        return Some(0x68);
    }
    if same_text(name, "num9") {
        return Some(0x69);
    }
    if same_text(name, "numlock") {
        return Some(0x90);
    }
    if same_text(name, "numslash") {
        return Some(0x6f);
    }
    if same_text(name, "nummultiply") {
        return Some(0x6a);
    }
    if same_text(name, "numminus") {
        return Some(0x6d);
    }
    if same_text(name, "numplus") {
        return Some(0x6b);
    }
    if same_text(name, "numenter") {
        return Some(0x0d);
    }
    if same_text(name, "numdecimal") {
        return Some(0x6e);
    }
    if same_text(name, "back") {
        return Some(0x08);
    }
    if same_text(name, "tab") {
        return Some(0x09);
    }
    if same_text(name, "enter") {
        return Some(0x0d);
    }
    if same_text(name, "space") {
        return Some(0x20);
    }
    if same_text(name, "capslock") {
        return Some(0x14);
    }
    if same_text(name, "esc") {
        return Some(0x1b);
    }
    if same_text(name, "left") {
        return Some(0x25);
    }
    if same_text(name, "right") {
        return Some(0x27);
    }
    if same_text(name, "up") {
        return Some(0x26);
    }
    if same_text(name, "down") {
        return Some(0x28);
    }
    if same_text(name, "home") {
        return Some(0x24);
    }
    if same_text(name, "end") {
        return Some(0x23);
    }
    if same_text(name, "pageup") {
        return Some(0x21);
    }
    if same_text(name, "pagedown") {
        return Some(0x22);
    }
    if same_text(name, "insert") {
        return Some(0x2d);
    }
    if same_text(name, "delete") {
        return Some(0x2e);
    }
    if same_text(name, "printscreen") {
        return Some(0x2c);
    }
    if same_text(name, "scrolllock") {
        return Some(0x91);
    }
    if same_text(name, "pause") {
        return Some(0x13);
    }
    if same_text(name, "break") {
        return Some(0x03);
    }
    if same_text(name, "menu") {
        return Some(0x12);
    }
    if same_text(name, "lmenu") {
        return Some(0xa4);
    }
    if same_text(name, "rmenu") {
        return Some(0xa5);
    }
    if same_text(name, "lwin") {
        return Some(0x5b);
    }
    if same_text(name, "rwin") {
        return Some(0x5c);
    }
    if same_text(name, "apps") {
        return Some(0x5d);
    }
    if same_text(name, "sleep") {
        return Some(0x5f);
    }
    if same_text(name, "zoom") {
        return Some(0xfb);
    }
    if same_text(name, "volumeup") {
        return Some(0xaf);
    }
    if same_text(name, "volumedown") {
        return Some(0xae);
    }
    if same_text(name, "volumemute") {
        return Some(0xad);
    }
    if same_text(name, "stop") {
        return Some(0xb2);
    }
    if same_text(name, "playpause") {
        return Some(0xb3);
    }
    if same_text(name, "prev") {
        return Some(0xb1);
    }
    if same_text(name, "next") {
        return Some(0xb0);
    }
    None
}

} // verus!
