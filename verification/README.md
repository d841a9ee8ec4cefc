# sauron_core

The core of a virtual dom for html and svg views, written in Verus: the
functions of the library state their behaviour in `requires`/`ensures` and are
proved against it. The closures that callbacks and commands hold are stored and
called through a few trusted wrappers (`callback.rs`, `cmd.rs`), and the index of
attribute names is an `indexmap` map behind trusted wrappers (`attribute.rs`);
their contracts are assumed, not proved.

Layout of `src/`:

- `value`, `attribute`, `html_attributes`: attribute values, attributes, merging
  the attributes of the same name, and the common html attribute builders.
- `node`, `html`, `svg`: the tree of nodes and the element builders (text siblings
  are kept apart by a separator comment).
- `render`: rendering a tree to html text, compressed or indented.
- `tree_path`: paths from the root of a tree to its nodes.
- `chars`, `jss`, `units`: css from json, namespaced selectors and class names,
  css units.
- `callback`, `events`, `map_msg`: listeners and mapping their messages.
- `modifier`, `cmd`, `effects`, `prediff`, `component`, `app`, `dom_actions`: the
  update loop of an application, and the operations that setting or removing attributes
  performs on the real dom.

`app/` turns `serde_json` values into the library's json type for the css
functions.
