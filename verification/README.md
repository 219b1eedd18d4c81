# mersey_host

The host side of the Mersey engine in a browser page, written in Verus.

A script of type `text/mersey` runs in the engine. When it touches the page, the
engine calls the host through a table of hooks. A hot member goes straight to the
native implementation behind its receiver; everything else crosses through a
reflective bridge into the page's realm.

- `src/` is what the host decides, proved: classifying names, choosing a tier,
  finding and keeping natives, passing arguments, typing replies, setting up the
  engine, and the console. Every host call is a task: it names the next piece of
  work, is told how it went, and ends in a reply. `src/laws.rs` states what holds
  of all host calls.
- `app/` does the work in the page. It belongs inside Servo's script component.
- `tests/` runs tasks against a page that answers as it is told to.

Doubles cross the library as their bit patterns. Natives cross it as addresses,
0 standing for none.
