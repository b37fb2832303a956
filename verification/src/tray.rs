use vstd::prelude::*;

verus! {

/// The autostart entry of the tray menu.
pub const MENU_AUTOSTART: &'static str = "开机自动启动";

/// The "restore brightness at startup" entry of the tray menu.
pub const MENU_RESTORE_BRIGHTNESS: &'static str = "启动时恢复亮度";

/// The exit entry of the tray menu.
pub const MENU_EXIT: &'static str = "退出";

/// The generic name of a monitor, used where it has none of its own.
pub const GENERIC_MONITOR_NAME: &'static str = "显示器";

/// Whether two texts are the same, character by character.
pub fn same_text(a: &str, b: &str) -> (same: bool)
    ensures
        same == (a@ == b@),
{
    let n = a.unicode_len();
    if n != b.unicode_len() {
        return false;
    }
    for i in 0..n
        invariant
            n == a@.len(),
            n == b@.len(),
            forall|j: int| 0 <= j < i ==> a@[j] == b@[j],
    {
        if a.get_char(i) != b.get_char(i) {
            return false;
        }
    }
    assert(a@ =~= b@);
    true
}

/// What a chosen tray-menu entry asks for.
#[derive(Clone, Copy, Debug, PartialEq, Eq, Structural)]
pub enum MenuChoice {
    ToggleAutostart,
    ToggleRestoreBrightness,
    Exit,
    Ignore,
}

pub open spec fn spec_menu_choice(label: Seq<char>) -> MenuChoice {
    if label == MENU_AUTOSTART@ {
        MenuChoice::ToggleAutostart
    } else if label == MENU_RESTORE_BRIGHTNESS@ {
        MenuChoice::ToggleRestoreBrightness
    } else if label == MENU_EXIT@ {
        MenuChoice::Exit
    } else {
        MenuChoice::Ignore
    }
}

/// The action for the label of the chosen menu entry; any other label is
/// ignored.
pub fn menu_choice(label: &str) -> (choice: MenuChoice)
    ensures
        choice == spec_menu_choice(label@),
{
    if same_text(label, MENU_AUTOSTART) {
        MenuChoice::ToggleAutostart
    } else if same_text(label, MENU_RESTORE_BRIGHTNESS) {
        MenuChoice::ToggleRestoreBrightness
    } else if same_text(label, MENU_EXIT) {
        MenuChoice::Exit
    } else {
        MenuChoice::Ignore
    }
}

/// The taskbar's colour scheme.
#[derive(Clone, Copy, Debug, PartialEq, Eq, Structural)]
pub enum Theme {
    Light,
    Dark,
}

/// Which of the two tray icons fits the theme: the dark one on a light
/// taskbar, the light one on a dark taskbar.
pub fn icon_index(theme: Theme) -> (index: usize)
    ensures
        index == (match theme {
            Theme::Light => 0usize,
            Theme::Dark => 1usize,
        }),
{
    match theme {
        Theme::Light => 0,
        Theme::Dark => 1,
    }
}

/// The monitor name the tray tooltip starts with.
pub fn tooltip_name<'a>(name: &'a str) -> (shown: &'a str)
    ensures
        shown@ == (if name@.len() == 0 { GENERIC_MONITOR_NAME@ } else { name@ }),
{
    if name.unicode_len() == 0 {
        GENERIC_MONITOR_NAME
    } else {
        name
    }
}

/// The decimal digits of `n`.
pub open spec fn decimal(n: nat) -> Seq<char>
    decreases n,
{
    if n < 10 {
        seq![digit_char(n)]
    } else {
        decimal(n / 10).push(digit_char(n % 10))
    }
}

pub open spec fn digit_char(d: nat) -> char {
    seq!['0', '1', '2', '3', '4', '5', '6', '7', '8', '9'][d as int]
}

/// The one-character text of a decimal digit.
fn digit_text(d: usize) -> (text: &'static str)
    requires
        d < 10,
    ensures
        text@ == seq![digit_char(d as nat)],
{
    match d {
        0 => {
            proof {
                reveal_strlit("0");
            }
            "0"
        },
        1 => {
            proof {
                reveal_strlit("1");
            }
            "1"
        },
        2 => {
            proof {
                reveal_strlit("2");
            }
            "2"
        },
        3 => {
            proof {
                reveal_strlit("3");
            }
            "3"
        },
        4 => {
            proof {
                reveal_strlit("4");
            }
            "4"
        },
        5 => {
            proof {
                reveal_strlit("5");
            }
            "5"
        },
        6 => {
            proof {
                reveal_strlit("6");
            }
            "6"
        },
        7 => {
            proof {
                reveal_strlit("7");
            }
            "7"
        },
        8 => {
            proof {
                reveal_strlit("8");
            }
            "8"
        },
        _ => {
            proof {
                reveal_strlit("9");
            }
            "9"
        },
    }
}

/// `n` written in decimal.
pub fn decimal_text(n: usize) -> (text: String)
    ensures
        text@ == decimal(n as nat),
    decreases n,
{
    if n < 10 {
        String::from_str(digit_text(n))
    } else {
        let head = decimal_text(n / 10);
        head.concat(digit_text(n % 10))
    }
}

/// The label of a flyout row: the monitor's name, or the generic name with the
/// row's number counted from 1 when the monitor has none.
pub fn monitor_label(name: &String, index: usize) -> (label: String)
    requires
        index < usize::MAX,
    ensures
        label@ == (if name@.len() == 0 {
            GENERIC_MONITOR_NAME@ + seq![' '] + decimal(index as nat + 1)
        } else {
            name@
        }),
{
    if name.as_str().unicode_len() == 0 {
        let number = decimal_text(index + 1);
        let prefix = "显示器 ";
        proof {
            reveal_strlit("显示器 ");
            reveal_strlit("显示器");
            assert(prefix@ == GENERIC_MONITOR_NAME@ + seq![' ']);
        }
        let label = String::from_str(prefix);
        label.concat(number.as_str())
    } else {
        name.clone()
    }
}

/// Each menu label leads to its own action and only that label does; every
/// other label is ignored.
pub proof fn law_each_label_has_its_action(label: Seq<char>)
    ensures
        spec_menu_choice(label) == MenuChoice::ToggleAutostart <==> label == MENU_AUTOSTART@,
        spec_menu_choice(label) == MenuChoice::ToggleRestoreBrightness <==> label
            == MENU_RESTORE_BRIGHTNESS@,
        spec_menu_choice(label) == MenuChoice::Exit <==> label == MENU_EXIT@,
        spec_menu_choice(label) == MenuChoice::Ignore <==> (label != MENU_AUTOSTART@ && label
            != MENU_RESTORE_BRIGHTNESS@ && label != MENU_EXIT@),
{
    reveal_strlit("开机自动启动");
    reveal_strlit("启动时恢复亮度");
    reveal_strlit("退出");
    assert(MENU_AUTOSTART@ != MENU_RESTORE_BRIGHTNESS@) by {
        assert(MENU_AUTOSTART@.len() != MENU_RESTORE_BRIGHTNESS@.len());
    }
    assert(MENU_AUTOSTART@ != MENU_EXIT@) by {
        assert(MENU_AUTOSTART@.len() != MENU_EXIT@.len());
    }
    assert(MENU_RESTORE_BRIGHTNESS@ != MENU_EXIT@) by {
        assert(MENU_RESTORE_BRIGHTNESS@.len() != MENU_EXIT@.len());
    }
}

/// The value of a text of decimal digits.
pub open spec fn digits_value(s: Seq<char>) -> int
    decreases s.len(),
{
    if s.len() == 0 {
        0
    } else {
        digits_value(s.drop_last()) * 10 + (s.last() as int - '0' as int)
    }
}

proof fn lemma_digit_char(d: nat)
    requires
        d < 10,
    ensures
        digit_char(d) as int - '0' as int == d,
        '0' <= digit_char(d) <= '9',
{
    let t = seq!['0', '1', '2', '3', '4', '5', '6', '7', '8', '9'];
    assert(t[0] == '0' && t[1] == '1' && t[2] == '2' && t[3] == '3' && t[4] == '4');
    assert(t[5] == '5' && t[6] == '6' && t[7] == '7' && t[8] == '8' && t[9] == '9');
}

/// The decimal text of a number is made of digits, has no leading zero (but for
/// zero itself) and reads back as the number.
pub proof fn law_decimal_reads_back(n: nat)
    ensures
        digits_value(decimal(n)) == n,
        decimal(n).len() >= 1,
        forall|i: int| 0 <= i < decimal(n).len() ==> '0' <= #[trigger] decimal(n)[i] <= '9',
        n > 0 ==> decimal(n)[0] != '0',
    decreases n,
{
    if n < 10 {
        lemma_digit_char(n);
        assert(decimal(n).drop_last() =~= Seq::<char>::empty());
        assert(digits_value(Seq::<char>::empty()) == 0);
        assert(decimal(n).last() == digit_char(n));
    } else {
        law_decimal_reads_back(n / 10);
        lemma_digit_char(n % 10);
        let head = decimal(n / 10);
        assert(decimal(n).drop_last() == head);
        assert(decimal(n).last() == digit_char(n % 10));
        assert(digits_value(decimal(n)) == digits_value(head) * 10 + (n % 10) as int);
        assert((n / 10) * 10 + n % 10 == n);
        assert(decimal(n)[0] == head[0]);
        assert forall|i: int| 0 <= i < decimal(n).len() implies '0' <= #[trigger] decimal(n)[i]
            <= '9' by {
            if i < head.len() {
                assert(decimal(n)[i] == head[i]);
            }
        }
    }
}

} // verus!
