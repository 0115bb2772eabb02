# ewm_core

The decision core of a Wayland compositor that Emacs drives: applications are
Emacs buffers, and Emacs says where they are shown.

The library in `src/` holds the compositor's state as plain values and decides
what happens to it. Surfaces, windows, outputs and timers are handles; what the
display server has to carry out comes out as a list of actions, and what Emacs is
told comes out as events. Every function states what it does to the state in its
contract, over a mathematical view of the state, and the contracts are proved.

| Where | What |
|---|---|
| `ewm`, `surfaces`, `commands` | the state, toplevels, focus, commands of Emacs |
| `input`, `keys`, `hits` | keys, pointer, what is under it |
| `layers`, `layer_shell`, `lock`, `protocols` | layer surfaces, the lock, other protocols |
| `space`, `geometry`, `output`, `outputs`, `render`, `redraw` | places, outputs, what is drawn and when |
| `backend` | hardware, a window of another compositor, virtual outputs |
| `dbus`, `pipewire` | screen casts |
| `standalone` | the program that talks to Emacs over a socket |
| `state`, `laws` | one turn of the loop, and what every operation keeps |
| `testing` | a compositor without hardware, for tests |

Where the calls to other crates end and proofs begin is marked: the few functions
that make such calls say in their comments what is taken for granted of them.

`app/` is the program around the library: the Wayland sockets, D-Bus, the
functions that Emacs calls, input, and drawing, off screen or into a window of
another display server.
