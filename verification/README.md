# sparsebundle-tools

Read, analyse and stream Apple sparsebundle disk images without mounting them.

The library in `src/` holds every rule and is verified with Verus. It does no I/O:

| module | what it holds |
|---|---|
| `band` | which pieces of which bands make up a stretch of the image, band file names, bands in numerical order, adjacency |
| `stream` | a band cut into overlapping windows |
| `plist` | values out of an XML property list |
| `apfs`, `partition` | container superblocks, GPT and Apple Partition Map, filesystem magics |
| `analysis` | inventory, notes, health |
| `survey` | the analysis as a conversation: what to look at next, and what it means |
| `laws` | what holds of every analysis |
| `render` | the printed summary |
| `text`, `bytes` | searching, trimming, numbers; fixed-width fields |

`app/` is the command line tool: it looks at files and tells the library what it found.

```sh
sparsebundle-tools info  MyMac.sparsebundle
sparsebundle-tools bands MyMac.sparsebundle
sparsebundle-tools read  MyMac.sparsebundle --offset 512 --len 512 | xxd
```
