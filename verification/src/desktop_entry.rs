//! Freedesktop-style desktop entries, rendered with sanitized fields and a
//! launch command that targets the stable launcher path.
use vstd::prelude::*;

use crate::text::string_of;

verus! {

/// A free-text field sanitized for a desktop entry: backslashes doubled,
/// newlines and carriage returns turned into spaces.
pub open spec fn sanitize_from(s: Seq<char>, i: int) -> Seq<char>
    decreases s.len() - i,
{
    if i < 0 || i >= s.len() {
        Seq::empty()
    } else if s[i] == '\\' {
        seq!['\\', '\\'] + sanitize_from(s, i + 1)
    } else if s[i] == '\n' || s[i] == '\r' {
        seq![' '] + sanitize_from(s, i + 1)
    } else {
        seq![s[i]] + sanitize_from(s, i + 1)
    }
}

pub open spec fn sanitize_spec(s: Seq<char>) -> Seq<char> {
    sanitize_from(s, 0)
}

fn sanitize_desktop_value(value: &str) -> (r: Vec<char>)
    ensures
        r@ == sanitize_spec(value@),
{
    let v = crate::text::chars_of(value);
    let n = v.len();
    let mut r: Vec<char> = Vec::new();
    let mut i: usize = 0;
    while i < n
        invariant
            i <= n,
            n == v@.len(),
            v@ == value@,
            sanitize_spec(value@) == r@ + sanitize_from(v@, i as int),
        decreases n - i,
    {
        let c = v[i];
        let ghost r0 = r@;
        if c == '\\' {
            r.push('\\');
            r.push('\\');
            proof {
                assert(r@ =~= r0 + seq!['\\', '\\']);
                assert(r0 + (seq!['\\', '\\'] + sanitize_from(v@, i + 1)) =~= (r0 + seq![
                    '\\',
                    '\\',
                ]) + sanitize_from(v@, i + 1));
            }
        } else if c == '\n' || c == '\r' {
            r.push(' ');
            proof {
                assert(r0 + (seq![' '] + sanitize_from(v@, i + 1)) =~= (r0 + seq![' '])
                    + sanitize_from(v@, i + 1));
            }
        } else {
            r.push(c);
            proof {
                assert(r0 + (seq![v@[i as int]] + sanitize_from(v@, i + 1)) =~= (r0 + seq![
                    v@[i as int],
                ]) + sanitize_from(v@, i + 1));
            }
        }
        i += 1;
    }
    proof {
        assert(r@ + sanitize_from(v@, n as int) =~= r@);
    }
    r
}

/// The sanitized categories joined by semicolons.
pub open spec fn categories_text(cats: Seq<Seq<char>>, i: int) -> Seq<char>
    decreases cats.len() - i,
{
    if i < 0 || i >= cats.len() {
        Seq::empty()
    } else if i == cats.len() - 1 {
        sanitize_spec(cats[i])
    } else {
        sanitize_spec(cats[i]) + seq![';'] + categories_text(cats, i + 1)
    }
}

/// The full text of a published desktop entry.
pub open spec fn entry_text_spec(
    name: Seq<char>,
    exec_path: Seq<char>,
    icon_path: Seq<char>,
    terminal: bool,
    cats: Seq<Seq<char>>,
) -> Seq<char> {
    "[Desktop Entry]\nType=Application\nName="@ + sanitize_spec(name) + "\nExec="@
        + sanitize_spec(exec_path) + "\nIcon="@ + sanitize_spec(icon_path) + "\nTerminal="@ + (
    if terminal {
        "true"@
    } else {
        "false"@
    }) + "\nCategories="@ + categories_text(cats, 0) + "\n"@
}

#[derive(Debug)]
pub struct DesktopEntry {
    pub name: String,
    pub exec_path: String,
    pub icon_path: String,
    pub terminal: bool,
    pub categories: Vec<String>,
}

impl DesktopEntry {
    pub fn new(name: String, exec_path: String, icon_path: String) -> (r: Self)
        ensures
            r.name == name,
            r.exec_path == exec_path,
            r.icon_path == icon_path,
            !r.terminal,
            r.categories.deep_view() == seq!["Utility"@],
    {
        let mut categories: Vec<String> = Vec::new();
        categories.push("Utility".to_owned());
        proof {
            assert(categories.deep_view() =~~= seq!["Utility"@]);
        }
        DesktopEntry { name, exec_path, icon_path, terminal: false, categories }
    }

    pub fn with_categories(
        name: String,
        exec_path: String,
        icon_path: String,
        categories: Vec<String>,
    ) -> (r: Self)
        ensures
            r.name == name,
            r.exec_path == exec_path,
            r.icon_path == icon_path,
            !r.terminal,
            r.categories == categories,
    {
        DesktopEntry { name, exec_path, icon_path, terminal: false, categories }
    }

    /// The entry rendered as the file content to publish.
    pub fn to_file_content(&self) -> (r: String)
        ensures
            r@ == entry_text_spec(
                self.name@,
                self.exec_path@,
                self.icon_path@,
                self.terminal,
                self.categories.deep_view(),
            ),
    {
        let mut out = "[Desktop Entry]\nType=Application\nName=".to_owned();
        let name = sanitize_desktop_value(self.name.as_str());
        out.append(string_of(&name).as_str());
        out.append("\nExec=");
        let exec_path = sanitize_desktop_value(self.exec_path.as_str());
        out.append(string_of(&exec_path).as_str());
        out.append("\nIcon=");
        let icon_path = sanitize_desktop_value(self.icon_path.as_str());
        out.append(string_of(&icon_path).as_str());
        out.append("\nTerminal=");
        if self.terminal {
            out.append("true");
        } else {
            out.append("false");
        }
        out.append("\nCategories=");
        let cats = self.categories_joined();
        out.append(cats.as_str());
        out.append("\n");
        out
    }

    fn categories_joined(&self) -> (r: String)
        ensures
            r@ == categories_text(self.categories.deep_view(), 0),
    {
        let n = self.categories.len();
        let ghost cv = self.categories.deep_view();
        proof {
            assert(cv.len() == self.categories@.len());
        }
        let mut out = String::new();
        if n == 0 {
            return out;
        }
        let mut i: usize = 0;
        while i < n
            invariant
                i <= n,
                n == self.categories@.len(),
                n == cv.len(),
                cv == self.categories.deep_view(),
                categories_text(cv, 0) == out@ + categories_text(cv, i as int),
            decreases n - i,
        {
            proof {
                assert(cv[i as int] =~= self.categories@[i as int]@);
            }
            let ghost out0 = out@;
            let part = sanitize_desktop_value(self.categories[i].as_str());
            out.append(string_of(&part).as_str());
            if i + 1 < n {
                out.append(";");
                proof {
                    assert(";"@ =~= seq![';']) by {
                        reveal_strlit(";");
                    }
                    assert(categories_text(cv, i as int) == sanitize_spec(cv[i as int]) + seq![
                        ';',
                    ] + categories_text(cv, i + 1));
                    assert(out0 + (sanitize_spec(cv[i as int]) + seq![';'] + categories_text(
                        cv,
                        i + 1,
                    )) =~= (out0 + sanitize_spec(cv[i as int]) + ";"@) + categories_text(
                        cv,
                        i + 1,
                    ));
                }
            } else {
                proof {
                    assert(categories_text(cv, i as int) == sanitize_spec(cv[i as int]));
                    assert(categories_text(cv, i + 1) =~= Seq::<char>::empty());
                    assert(out0 + sanitize_spec(cv[i as int]) =~= (out0 + sanitize_spec(
                        cv[i as int],
                    )) + categories_text(cv, i + 1));
                }
            }
            i += 1;
        }
        proof {
            assert(out@ + categories_text(cv, n as int) =~= out@);
            assert(categories_text(cv, n as int) =~= Seq::<char>::empty());
        }
        out
    }
}

} // verus!
