use vstd::prelude::*;
use arboard::Clipboard;
use crate::charmap::CharMap;
use crate::text::{chars_to_string, push_all, str_chars};

verus! {

/// The system clipboard of the `arboard` crate.
#[verifier::external_type_specification]
#[verifier::external_body]
pub struct ExClipboard(Clipboard);

/// The error type of the `arboard` crate.
#[verifier::external_type_specification]
#[verifier::external_body]
pub struct ExClipboardError(arboard::Error);

/// `Clipboard::new`: a handle on the system clipboard, when the system has
/// one.  Whether it has depends on the machine, so nothing is stated.
#[verifier::external_body]
fn clipboard_new() -> (r: Option<Clipboard>) {
    Clipboard::new().ok()
}

/// `Clipboard::set_text`: places `text` on the system clipboard.  What the
/// clipboard holds afterwards is shared with every other program, so nothing
/// is stated of it.
#[verifier::external_body]
fn clipboard_set_text(cb: &mut Clipboard, text: &str) -> (r: Result<(), arboard::Error>) {
    cb.set_text(text)
}

/// `Clipboard::get_text`: the text on the system clipboard.  It depends on
/// every other program, so nothing is stated of it.
#[verifier::external_body]
fn clipboard_get_text(cb: &mut Clipboard) -> (r: Result<String, arboard::Error>) {
    cb.get_text()
}

/// `char::to_ascii_lowercase`: ASCII capitals become small letters.
pub open spec fn lower(c: char) -> char {
    if 'A' <= c && c <= 'Z' {
        ((c as u32) + 32) as char
    } else {
        c
    }
}

/// The lower-case form of `c`, as `char::to_ascii_lowercase` gives it.
pub fn to_ascii_lowercase(c: char) -> (r: char)
    ensures
        r == lower(c),
{
    if 'A' <= c && c <= 'Z' {
        let b = (c as u8) + 32;
        b as char
    } else {
        c
    }
}

/// The names of the registers that exist from the start: 'a'..='z', '"'
/// and '+'.
pub open spec fn initial_name(c: char) -> bool {
    ('a' <= c && c <= 'z') || c == '"' || c == '+'
}

/// Named registers of yanked text, with the system clipboard behind the
/// unnamed register '"' and the register '+'.
pub struct Register {
    registers: CharMap<String>,
    default_register: char,
    system_clipboard: Option<Clipboard>,
    sent: Ghost<Seq<Seq<char>>>,
}

/// Whether storing in register `name` also goes to the system clipboard.
pub open spec fn clipboard_name(name: char) -> bool {
    lower(name) == '"' || lower(name) == '+'
}

/// The texts handed to the system clipboard after `text` is stored in
/// register `name` of `r`: `text` is added when `r` holds a clipboard handle
/// and the register is '"' or '+'.
pub open spec fn sent_after(r: Register, name: char, text: Seq<char>) -> Seq<Seq<char>> {
    if r.has_clipboard() && clipboard_name(name) {
        r.sent().push(text)
    } else {
        r.sent()
    }
}

impl Register {
    /// The default register is always the unnamed one, '"'.
    #[verifier::type_invariant]
    spec fn unnamed_default(&self) -> bool {
        self.default_register == '"'
    }

    /// The text of each register, by name.
    pub closed spec fn view(&self) -> Map<char, Seq<char>> {
        Map::new(
            |k: char| self.registers.view().contains_key(k),
            |k: char| self.registers.view()[k]@,
        )
    }

    /// Whether a handle on the system clipboard was obtained.
    pub closed spec fn has_clipboard(&self) -> bool {
        self.system_clipboard is Some
    }

    /// The texts handed to the system clipboard so far, oldest first.
    pub closed spec fn sent(&self) -> Seq<Seq<char>> {
        self.sent@
    }

    /// The register that `get_default` reads.
    pub closed spec fn default_name(&self) -> char {
        self.default_register
    }

    /// The text of register `name` as `get` reads it: its lower-case name,
    /// and empty for a register that was never set.
    pub open spec fn content(&self, name: char) -> Seq<char> {
        if self.view().contains_key(lower(name)) {
            self.view()[lower(name)]
        } else {
            Seq::empty()
        }
    }

    /// Registers 'a'..='z', '"' and '+', all empty, with '"' as the default
    /// register.
    pub fn new() -> (r: Self)
        ensures
            forall|c: char| #[trigger] r.view().contains_key(c) <==> initial_name(c),
            forall|c: char| initial_name(c) ==> #[trigger] r.view()[c] == Seq::<char>::empty(),
            r.default_name() == '"',
            r.sent() == Seq::<Seq<char>>::empty(),
    {
        let mut registers: CharMap<String> = CharMap::new();
        let mut b: u8 = 97;
        while b <= 122
            invariant
                97 <= b <= 123,
                forall|c: char| #[trigger]
                    registers.view().contains_key(c) <==> ('a' <= c && c < (b as char)),
                forall|c: char| #[trigger]
                    registers.view().contains_key(c) ==> registers.view()[c]@ == Seq::<char>::empty(),
            decreases 123 - b,
        {
            let c = b as char;
            registers.insert(c, String::new());
            b = b + 1;
        }
        registers.insert('"', String::new());
        registers.insert('+', String::new());
        let r = Register {
            registers,
            default_register: '"',
            system_clipboard: clipboard_new(),
            sent: Ghost(Seq::empty()),
        };
        assert forall|c: char| #[trigger] r.view().contains_key(c) <==> initial_name(c) by {}
        assert forall|c: char| initial_name(c) implies #[trigger] r.view()[c] == Seq::<char>::empty() by {
            assert(r.registers.view().contains_key(c));
        }
        r
    }

    /// Stores `content` in register `name` (by its lower-case name); the
    /// registers '"' and '+' also hand it to the system clipboard.
    pub fn set(&mut self, name: char, content: &str)
        ensures
            final(self).view() == old(self).view().insert(lower(name), content@),
            final(self).default_name() == old(self).default_name(),
            final(self).default_name() == '"',
            final(self).has_clipboard() == old(self).has_clipboard(),
            final(self).sent() == sent_after(*old(self), name, content@),
    {
        proof {
            use_type_invariant(&*self);
        }
        let reg = to_ascii_lowercase(name);
        let mut regs: CharMap<String> = CharMap::new();
        std::mem::swap(&mut regs, &mut self.registers);
        regs.insert(reg, chars_to_string(str_chars(content).as_slice()));
        self.registers = regs;
        assert(self.view() =~= old(self).view().insert(lower(name), content@));
        if reg == '"' || reg == '+' {
            self.set_system_clipboard(content);
        }
    }

    /// The text of register `name` (by its lower-case name); empty for a
    /// register that was never set.
    pub fn get(&self, name: char) -> (s: String)
        ensures
            s@ == self.content(name),
    {
        let reg = to_ascii_lowercase(name);
        match self.registers.get(reg) {
            Some(s) => s.clone(),
            None => String::new(),
        }
    }

    /// The text of the default register.
    pub fn get_default(&self) -> (s: String)
        ensures
            s@ == self.content(self.default_name()),
    {
        self.get(self.default_register)
    }

    fn set_system_clipboard(&mut self, content: &str)
        ensures
            final(self).view() == old(self).view(),
            final(self).default_name() == old(self).default_name(),
            final(self).default_name() == '"',
            final(self).has_clipboard() == old(self).has_clipboard(),
            final(self).sent() == if old(self).has_clipboard() {
                old(self).sent().push(content@)
            } else {
                old(self).sent()
            },
    {
        proof {
            use_type_invariant(&*self);
        }
        let mut cb: Option<Clipboard> = None;
        std::mem::swap(&mut cb, &mut self.system_clipboard);
        match cb {
            Some(mut cb) => {
                let _ = clipboard_set_text(&mut cb, content);
                self.sent = Ghost(self.sent@.push(content@));
                self.system_clipboard = Some(cb);
            },
            None => {},
        }
    }

    fn get_system_clipboard(&mut self) -> (r: Option<String>)
        ensures
            final(self).sent() == old(self).sent(),
            final(self).view() == old(self).view(),
            final(self).default_name() == old(self).default_name(),
            final(self).default_name() == '"',
            final(self).has_clipboard() == old(self).has_clipboard(),
            !old(self).has_clipboard() ==> r is None,
    {
        proof {
            use_type_invariant(&*self);
        }
        let mut cb: Option<Clipboard> = None;
        std::mem::swap(&mut cb, &mut self.system_clipboard);
        match cb {
            Some(mut cb) => {
                let text = clipboard_get_text(&mut cb);
                self.system_clipboard = Some(cb);
                match text {
                    Ok(t) => Some(t),
                    Err(_) => None,
                }
            },
            None => None,
        }
    }

    /// Register `name`, except that '+' reads the system clipboard when it
    /// can be read, and falls back on the register otherwise.
    pub fn get_with_clipboard(&mut self, name: char) -> (s: String)
        ensures
            final(self).sent() == old(self).sent(),
            final(self).view() == old(self).view(),
            final(self).default_name() == old(self).default_name(),
            final(self).default_name() == '"',
            final(self).has_clipboard() == old(self).has_clipboard(),
            name != '+' || !old(self).has_clipboard() ==> s@ == old(self).content(name),
    {
        proof {
            use_type_invariant(&*self);
        }
        if name == '+' {
            match self.get_system_clipboard() {
                Some(t) => t,
                None => self.get(name),
            }
        } else {
            self.get(name)
        }
    }

    /// Appends `content` to register `name` on a new line; an empty register
    /// just takes `content`.
    pub fn append(&mut self, name: char, content: &str)
        ensures
            final(self).default_name() == old(self).default_name(),
            final(self).default_name() == '"',
            final(self).has_clipboard() == old(self).has_clipboard(),
            final(self).sent() == sent_after(*old(self), name, final(self).content(name)),
            final(self).view() == old(self).view().insert(
                lower(name),
                if old(self).content(name).len() == 0 {
                    content@
                } else {
                    old(self).content(name) + seq!['\n'] + content@
                },
            ),
    {
        let reg = to_ascii_lowercase(name);
        let current = self.get(reg);
        assert(lower(reg) == lower(name));
        assert(old(self).content(reg) == old(self).content(name));
        if current.as_str().is_empty() {
            self.set(reg, content);
        } else {
            let mut joined = str_chars(current.as_str());
            joined.push('\n');
            push_all(&mut joined, &str_chars(content));
            let s = chars_to_string(joined.as_slice());
            assert(s@ == old(self).content(name) + seq!['\n'] + content@);
            self.set(reg, s.as_str());
        }
    }
}

impl Default for Register {
    fn default() -> (r: Self)
        ensures
            forall|c: char| #[trigger] r.view().contains_key(c) <==> initial_name(c),
            forall|c: char| initial_name(c) ==> #[trigger] r.view()[c] == Seq::<char>::empty(),
            r.default_name() == '"',
            r.sent() == Seq::<Seq<char>>::empty(),
    {
        Register::new()
    }
}

} // verus!
