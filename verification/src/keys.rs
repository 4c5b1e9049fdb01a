use vstd::prelude::*;

verus! {

/// A physical key chord: a plain character, a control- or alt-modified
/// character, or a named key. Chords are pure values compared by structure;
/// `Ctrl('c')` is distinct from plain `Char('c')`.
#[derive(Debug, Clone, Copy, PartialEq, Eq, Hash, Structural)]
pub enum Key {
    Char(char),
    Ctrl(char),
    Alt(char),
    Backspace,
    Enter,
    Esc,
    Unknown,
}

/// The display name of a chord: the plain character, the modifier with its
/// character, or the name of the named key.
pub open spec fn key_label(k: Key) -> Seq<char> {
    match k {
        Key::Char(c) => seq![c],
        Key::Ctrl(c) => "Ctrl+"@ + seq![c],
        Key::Alt(c) => "Alt+"@ + seq![c],
        Key::Backspace => "Backspace"@,
        Key::Enter => "Enter"@,
        Key::Esc => "Esc"@,
        Key::Unknown => "Unknown"@,
    }
}

impl Key {
    /// The display name of this chord.
    pub fn label(&self) -> (r: String)
        ensures
            r@ == key_label(*self),
    {
        match self {
            Key::Char(c) => {
                let mut s = String::new();
                crate::text::push_char(&mut s, *c);
                proof {
                    assert(s@ =~= key_label(*self));
                }
                s
            },
            Key::Ctrl(c) => {
                let mut s = "Ctrl+".to_owned();
                crate::text::push_char(&mut s, *c);
                proof {
                    assert(s@ =~= key_label(*self));
                }
                s
            },
            Key::Alt(c) => {
                let mut s = "Alt+".to_owned();
                crate::text::push_char(&mut s, *c);
                proof {
                    assert(s@ =~= key_label(*self));
                }
                s
            },
            Key::Backspace => "Backspace".to_owned(),
            Key::Enter => "Enter".to_owned(),
            Key::Esc => "Esc".to_owned(),
            Key::Unknown => "Unknown".to_owned(),
        }
    }
}

} // verus!
